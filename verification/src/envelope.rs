//! The tagged-union envelope over the six message variants. Decoding peeks
//! at the leading discriminant byte without consuming it, validates it, and
//! hands the untouched buffer to the matching variant decoder; encoding
//! forwards to the active variant, which emits its own discriminant, so the
//! envelope adds no framing of its own.

use vstd::prelude::*;
use crate::bytes::{dec_u8, peek_u8};
use crate::enums::SurfaceMessageType;
use crate::error::{EntityName, ProtoError, ProtoErrorKind};
use crate::messages::{
    dec_list_req, dec_list_rsp, dec_map_req, dec_map_rsp, dec_select_req, dec_select_rsp,
    list_req_bytes, list_rsp_bytes, map_req_bytes, map_rsp_bytes, select_req_bytes,
    select_rsp_bytes, ListReqView, MapReqView, NowSurfaceListReqMsg, NowSurfaceListRspMsg,
    NowSurfaceMapReqMsg, NowSurfaceMapRspMsg, NowSurfaceSelectReqMsg, NowSurfaceSelectRspMsg,
};

verus! {

/// The sum of the six surface message variants.
#[derive(Debug, Clone)]
pub enum NowSurfaceMsg {
    ListReq(NowSurfaceListReqMsg),
    ListRsp(NowSurfaceListRspMsg),
    MapReq(NowSurfaceMapReqMsg),
    MapRsp(NowSurfaceMapRspMsg),
    SelectReq(NowSurfaceSelectReqMsg),
    SelectRsp(NowSurfaceSelectRspMsg),
}

/// The mathematical image of an envelope: the active variant's image.
#[verifier::ext_equal]
pub enum SurfaceMsgView {
    ListReq(ListReqView),
    ListRsp(NowSurfaceListRspMsg),
    MapReq(MapReqView),
    MapRsp(NowSurfaceMapRspMsg),
    SelectReq(NowSurfaceSelectReqMsg),
    SelectRsp(NowSurfaceSelectRspMsg),
}

impl View for NowSurfaceMsg {
    type V = SurfaceMsgView;

    open spec fn view(&self) -> SurfaceMsgView {
        match self {
            NowSurfaceMsg::ListReq(m) => SurfaceMsgView::ListReq(m@),
            NowSurfaceMsg::ListRsp(m) => SurfaceMsgView::ListRsp(*m),
            NowSurfaceMsg::MapReq(m) => SurfaceMsgView::MapReq(m@),
            NowSurfaceMsg::MapRsp(m) => SurfaceMsgView::MapRsp(*m),
            NowSurfaceMsg::SelectReq(m) => SurfaceMsgView::SelectReq(*m),
            NowSurfaceMsg::SelectRsp(m) => SurfaceMsgView::SelectRsp(*m),
        }
    }
}

impl SurfaceMsgView {
    /// The discriminant stored in the active variant's own header field.
    pub open spec fn subtype(self) -> SurfaceMessageType {
        match self {
            SurfaceMsgView::ListReq(v) => v.subtype,
            SurfaceMsgView::ListRsp(m) => m.subtype,
            SurfaceMsgView::MapReq(v) => v.subtype,
            SurfaceMsgView::MapRsp(m) => m.subtype,
            SurfaceMsgView::SelectReq(m) => m.subtype,
            SurfaceMsgView::SelectRsp(m) => m.subtype,
        }
    }

    /// The canonical message type of the active variant.
    pub open spec fn canonical_type(self) -> SurfaceMessageType {
        match self {
            SurfaceMsgView::ListReq(_) => SurfaceMessageType::ListReq,
            SurfaceMsgView::ListRsp(_) => SurfaceMessageType::ListRsp,
            SurfaceMsgView::MapReq(_) => SurfaceMessageType::MapReq,
            SurfaceMsgView::MapRsp(_) => SurfaceMessageType::MapRsp,
            SurfaceMsgView::SelectReq(_) => SurfaceMessageType::SelectReq,
            SurfaceMsgView::SelectRsp(_) => SurfaceMessageType::SelectRsp,
        }
    }

    /// The stored discriminant field equals the variant's canonical code:
    /// the invariant every constructor establishes.
    pub open spec fn tag_ok(self) -> bool {
        self.subtype() == self.canonical_type()
    }

    /// Every collection carried fits its one-byte count prefix.
    pub open spec fn wire_ok(self) -> bool {
        match self {
            SurfaceMsgView::ListReq(v) => v.surfaces.len() <= 255,
            SurfaceMsgView::MapReq(v) => v.maps.len() <= 255,
            _ => true,
        }
    }

    /// A message as its constructors build it: canonical tag, encodable.
    pub open spec fn wf(self) -> bool {
        self.tag_ok() && self.wire_ok()
    }
}

/// The wire image of an envelope: exactly the active variant's image.
pub open spec fn msg_bytes(m: SurfaceMsgView) -> Seq<u8> {
    match m {
        SurfaceMsgView::ListReq(v) => list_req_bytes(v),
        SurfaceMsgView::ListRsp(v) => list_rsp_bytes(v),
        SurfaceMsgView::MapReq(v) => map_req_bytes(v),
        SurfaceMsgView::MapRsp(v) => map_rsp_bytes(v),
        SurfaceMsgView::SelectReq(v) => select_req_bytes(v),
        SurfaceMsgView::SelectRsp(v) => select_rsp_bytes(v),
    }
}

/// What reading an envelope at position `i` of `b` yields: the discriminant
/// byte is looked at without being consumed, and the matching variant is
/// read from the same position.
pub open spec fn dec_msg(b: Seq<u8>, i: int) -> Option<(SurfaceMsgView, int)> {
    match dec_u8(b, i) {
        None => None,
        Some((c, _)) => match SurfaceMessageType::spec_from_code(c) {
            None => None,
            Some(t) => match t {
                SurfaceMessageType::ListReq => match dec_list_req(b, i) {
                    None => None,
                    Some((v, j)) => Some((SurfaceMsgView::ListReq(v), j)),
                },
                SurfaceMessageType::ListRsp => match dec_list_rsp(b, i) {
                    None => None,
                    Some((v, j)) => Some((SurfaceMsgView::ListRsp(v), j)),
                },
                SurfaceMessageType::MapReq => match dec_map_req(b, i) {
                    None => None,
                    Some((v, j)) => Some((SurfaceMsgView::MapReq(v), j)),
                },
                SurfaceMessageType::MapRsp => match dec_map_rsp(b, i) {
                    None => None,
                    Some((v, j)) => Some((SurfaceMsgView::MapRsp(v), j)),
                },
                SurfaceMessageType::SelectReq => match dec_select_req(b, i) {
                    None => None,
                    Some((v, j)) => Some((SurfaceMsgView::SelectReq(v), j)),
                },
                SurfaceMessageType::SelectRsp => match dec_select_rsp(b, i) {
                    None => None,
                    Some((v, j)) => Some((SurfaceMsgView::SelectRsp(v), j)),
                },
            },
        },
    }
}

impl NowSurfaceMsg {
    /// The exact number of bytes `encode_into` would append, computed
    /// without writing.
    pub fn encoded_len(&self) -> (r: usize)
        requires
            self@.wire_ok(),
        ensures
            r == msg_bytes(self@).len(),
    {
        match self {
            NowSurfaceMsg::ListReq(m) => m.encoded_len(),
            NowSurfaceMsg::ListRsp(m) => m.encoded_len(),
            NowSurfaceMsg::MapReq(m) => m.encoded_len(),
            NowSurfaceMsg::MapRsp(m) => m.encoded_len(),
            NowSurfaceMsg::SelectReq(m) => m.encoded_len(),
            NowSurfaceMsg::SelectRsp(m) => m.encoded_len(),
        }
    }

    /// Forward to the active variant's encoder, which emits its own
    /// discriminant byte first; the envelope adds nothing. An oversized
    /// collection is refused with an encoding failure chained with the
    /// envelope's identity, and the buffer is left untouched.
    pub fn encode_into(&self, buf: &mut Vec<u8>) -> (r: Result<(), ProtoError>)
        ensures
            self@.wire_ok() ==> {
                &&& r is Ok
                &&& final(buf)@ == old(buf)@ + msg_bytes(self@)
            },
            !self@.wire_ok() ==> {
                &&& r is Err
                &&& final(buf)@ == old(buf)@
                &&& r->Err_0.wf()
                &&& r->Err_0.root_kind() is Encoding
                &&& r->Err_0.layers@.last().kind == ProtoErrorKind::Encoding(
                    EntityName::SurfaceMsg,
                )
            },
    {
        match self {
            NowSurfaceMsg::ListReq(m) => match m.encode_into(buf) {
                Ok(u) => Ok(u),
                Err(e) => Err(
                    e.chain(
                        ProtoErrorKind::Encoding(EntityName::SurfaceMsg),
                        "couldn't encode list request message",
                    ),
                ),
            },
            NowSurfaceMsg::ListRsp(m) => match m.encode_into(buf) {
                Ok(u) => Ok(u),
                Err(e) => Err(
                    e.chain(
                        ProtoErrorKind::Encoding(EntityName::SurfaceMsg),
                        "couldn't encode list response message",
                    ),
                ),
            },
            NowSurfaceMsg::MapReq(m) => match m.encode_into(buf) {
                Ok(u) => Ok(u),
                Err(e) => Err(
                    e.chain(
                        ProtoErrorKind::Encoding(EntityName::SurfaceMsg),
                        "couldn't encode map request message",
                    ),
                ),
            },
            NowSurfaceMsg::MapRsp(m) => match m.encode_into(buf) {
                Ok(u) => Ok(u),
                Err(e) => Err(
                    e.chain(
                        ProtoErrorKind::Encoding(EntityName::SurfaceMsg),
                        "couldn't encode map response message",
                    ),
                ),
            },
            NowSurfaceMsg::SelectReq(m) => match m.encode_into(buf) {
                Ok(u) => Ok(u),
                Err(e) => Err(
                    e.chain(
                        ProtoErrorKind::Encoding(EntityName::SurfaceMsg),
                        "couldn't encode select request message",
                    ),
                ),
            },
            NowSurfaceMsg::SelectRsp(m) => match m.encode_into(buf) {
                Ok(u) => Ok(u),
                Err(e) => Err(
                    e.chain(
                        ProtoErrorKind::Encoding(EntityName::SurfaceMsg),
                        "couldn't encode select response message",
                    ),
                ),
            },
        }
    }

    /// Encode into a fresh buffer.
    pub fn encode(&self) -> (r: Result<Vec<u8>, ProtoError>)
        ensures
            self@.wire_ok() ==> r is Ok && r->Ok_0@ == msg_bytes(self@),
            !self@.wire_ok() ==> {
                &&& r is Err
                &&& r->Err_0.wf()
                &&& r->Err_0.root_kind() is Encoding
            },
    {
        let mut buf: Vec<u8> = Vec::new();
        self.encode_into(&mut buf)?;
        assert(buf@ =~= msg_bytes(self@));
        Ok(buf)
    }

    /// Look at the leading byte without consuming it, validate it as a
    /// discriminant, and read the matching variant from the same position.
    pub fn decode_from(buf: &[u8], pos: &mut usize) -> (r: Result<NowSurfaceMsg, ProtoError>)
        ensures
            match dec_msg(buf@, *old(pos) as int) {
                Some(p) => r is Ok && r->Ok_0@ == p.0 && *final(pos) == p.1,
                None => {
                    &&& r is Err
                    &&& r->Err_0.wf()
                    &&& r->Err_0.layers@.last().kind == ProtoErrorKind::Decoding(
                        EntityName::SurfaceMsg,
                    )
                    &&& dec_u8(buf@, *old(pos) as int) is None ==> r->Err_0.root_kind()
                        == ProtoErrorKind::Decoding(EntityName::SurfaceMsg)
                    &&& dec_u8(buf@, *old(pos) as int) matches Some((c8, j8)) ==> (
                    SurfaceMessageType::spec_from_code(c8) is None ==> r->Err_0.root_kind()
                        == ProtoErrorKind::InvalidDiscriminant(
                        EntityName::SurfaceMessageType,
                        c8 as u16,
                    ))
                },
            },
    {
        let c = match peek_u8(buf, *pos) {
            Some(c) => c,
            None => {
                return Err(
                    ProtoError::new(
                        ProtoErrorKind::Decoding(EntityName::SurfaceMsg),
                        "unexpected end of buffer",
                    ),
                );
            },
        };
        let t = match SurfaceMessageType::from_code(c) {
            Some(t) => t,
            None => {
                return Err(
                    ProtoError::new(
                        ProtoErrorKind::InvalidDiscriminant(
                            EntityName::SurfaceMessageType,
                            c as u16,
                        ),
                        "message-type code outside the declared set",
                    ).chain(ProtoErrorKind::Decoding(EntityName::SurfaceMsg), "invalid subtype"),
                );
            },
        };
        match t {
            SurfaceMessageType::ListReq => match NowSurfaceListReqMsg::decode_from(buf, pos) {
                Ok(m) => Ok(NowSurfaceMsg::ListReq(m)),
                Err(e) => Err(
                    e.chain(
                        ProtoErrorKind::Decoding(EntityName::SurfaceMsg),
                        "invalid list request message",
                    ),
                ),
            },
            SurfaceMessageType::ListRsp => match NowSurfaceListRspMsg::decode_from(buf, pos) {
                Ok(m) => Ok(NowSurfaceMsg::ListRsp(m)),
                Err(e) => Err(
                    e.chain(
                        ProtoErrorKind::Decoding(EntityName::SurfaceMsg),
                        "invalid list response message",
                    ),
                ),
            },
            SurfaceMessageType::MapReq => match NowSurfaceMapReqMsg::decode_from(buf, pos) {
                Ok(m) => Ok(NowSurfaceMsg::MapReq(m)),
                Err(e) => Err(
                    e.chain(
                        ProtoErrorKind::Decoding(EntityName::SurfaceMsg),
                        "invalid map request message",
                    ),
                ),
            },
            SurfaceMessageType::MapRsp => match NowSurfaceMapRspMsg::decode_from(buf, pos) {
                Ok(m) => Ok(NowSurfaceMsg::MapRsp(m)),
                Err(e) => Err(
                    e.chain(
                        ProtoErrorKind::Decoding(EntityName::SurfaceMsg),
                        "invalid map response message",
                    ),
                ),
            },
            SurfaceMessageType::SelectReq => match NowSurfaceSelectReqMsg::decode_from(buf, pos) {
                Ok(m) => Ok(NowSurfaceMsg::SelectReq(m)),
                Err(e) => Err(
                    e.chain(
                        ProtoErrorKind::Decoding(EntityName::SurfaceMsg),
                        "invalid select request message",
                    ),
                ),
            },
            SurfaceMessageType::SelectRsp => match NowSurfaceSelectRspMsg::decode_from(buf, pos) {
                Ok(m) => Ok(NowSurfaceMsg::SelectRsp(m)),
                Err(e) => Err(
                    e.chain(
                        ProtoErrorKind::Decoding(EntityName::SurfaceMsg),
                        "invalid select response message",
                    ),
                ),
            },
        }
    }

    /// Decode an envelope from the start of a buffer; bytes past the
    /// message are ignored.
    pub fn decode(buf: &[u8]) -> (r: Result<NowSurfaceMsg, ProtoError>)
        ensures
            match dec_msg(buf@, 0) {
                Some(p) => r is Ok && r->Ok_0@ == p.0,
                None => {
                    &&& r is Err
                    &&& r->Err_0.wf()
                    &&& r->Err_0.layers@.last().kind == ProtoErrorKind::Decoding(
                        EntityName::SurfaceMsg,
                    )
                    &&& dec_u8(buf@, 0) is None ==> r->Err_0.root_kind()
                        == ProtoErrorKind::Decoding(EntityName::SurfaceMsg)
                    &&& dec_u8(buf@, 0) matches Some((c8, j8)) ==> (
                    SurfaceMessageType::spec_from_code(c8) is None ==> r->Err_0.root_kind()
                        == ProtoErrorKind::InvalidDiscriminant(
                        EntityName::SurfaceMessageType,
                        c8 as u16,
                    ))
                },
            },
    {
        let mut pos: usize = 0;
        Self::decode_from(buf, &mut pos)
    }
}

impl From<NowSurfaceListReqMsg> for NowSurfaceMsg {
    fn from(msg: NowSurfaceListReqMsg) -> (r: Self) {
        NowSurfaceMsg::ListReq(msg)
    }
}

impl vstd::std_specs::convert::FromSpecImpl<NowSurfaceListReqMsg> for NowSurfaceMsg {
    open spec fn obeys_from_spec() -> bool {
        true
    }

    open spec fn from_spec(msg: NowSurfaceListReqMsg) -> Self {
        NowSurfaceMsg::ListReq(msg)
    }
}

impl From<NowSurfaceListRspMsg> for NowSurfaceMsg {
    fn from(msg: NowSurfaceListRspMsg) -> (r: Self) {
        NowSurfaceMsg::ListRsp(msg)
    }
}

impl vstd::std_specs::convert::FromSpecImpl<NowSurfaceListRspMsg> for NowSurfaceMsg {
    open spec fn obeys_from_spec() -> bool {
        true
    }

    open spec fn from_spec(msg: NowSurfaceListRspMsg) -> Self {
        NowSurfaceMsg::ListRsp(msg)
    }
}

impl From<NowSurfaceMapReqMsg> for NowSurfaceMsg {
    fn from(msg: NowSurfaceMapReqMsg) -> (r: Self) {
        NowSurfaceMsg::MapReq(msg)
    }
}

impl vstd::std_specs::convert::FromSpecImpl<NowSurfaceMapReqMsg> for NowSurfaceMsg {
    open spec fn obeys_from_spec() -> bool {
        true
    }

    open spec fn from_spec(msg: NowSurfaceMapReqMsg) -> Self {
        NowSurfaceMsg::MapReq(msg)
    }
}

impl From<NowSurfaceMapRspMsg> for NowSurfaceMsg {
    fn from(msg: NowSurfaceMapRspMsg) -> (r: Self) {
        NowSurfaceMsg::MapRsp(msg)
    }
}

impl vstd::std_specs::convert::FromSpecImpl<NowSurfaceMapRspMsg> for NowSurfaceMsg {
    open spec fn obeys_from_spec() -> bool {
        true
    }

    open spec fn from_spec(msg: NowSurfaceMapRspMsg) -> Self {
        NowSurfaceMsg::MapRsp(msg)
    }
}

impl From<NowSurfaceSelectReqMsg> for NowSurfaceMsg {
    fn from(msg: NowSurfaceSelectReqMsg) -> (r: Self) {
        NowSurfaceMsg::SelectReq(msg)
    }
}

impl vstd::std_specs::convert::FromSpecImpl<NowSurfaceSelectReqMsg> for NowSurfaceMsg {
    open spec fn obeys_from_spec() -> bool {
        true
    }

    open spec fn from_spec(msg: NowSurfaceSelectReqMsg) -> Self {
        NowSurfaceMsg::SelectReq(msg)
    }
}

impl From<NowSurfaceSelectRspMsg> for NowSurfaceMsg {
    fn from(msg: NowSurfaceSelectRspMsg) -> (r: Self) {
        NowSurfaceMsg::SelectRsp(msg)
    }
}

impl vstd::std_specs::convert::FromSpecImpl<NowSurfaceSelectRspMsg> for NowSurfaceMsg {
    open spec fn obeys_from_spec() -> bool {
        true
    }

    open spec fn from_spec(msg: NowSurfaceSelectRspMsg) -> Self {
        NowSurfaceMsg::SelectRsp(msg)
    }
}

} // verus!

//! The properties that hold across the codec as a whole, each proved from
//! the byte-image and read specifications the modules state.

use vstd::prelude::*;
use crate::envelope::{dec_msg, msg_bytes, SurfaceMsgView};
use crate::enums::lemma_message_type_code_round_trip;
use crate::list::{lemma_defs_bytes_len, lemma_maps_bytes_len};
use crate::messages::{
    lemma_dec_list_req_of_bytes, lemma_dec_list_rsp_of_bytes, lemma_dec_map_req_of_bytes,
    lemma_dec_map_rsp_of_bytes, lemma_dec_select_req_of_bytes, lemma_dec_select_rsp_of_bytes,
    list_req_bytes, map_req_bytes, ListReqView, MapReqView,
};

verus! {

/// Round trip: reading back the wire image of any message whose stored
/// discriminant is canonical and whose collections fit their count prefix
/// yields that message, field for field, consuming the whole image.
pub proof fn lemma_round_trip(m: SurfaceMsgView)
    requires
        m.wf(),
    ensures
        dec_msg(msg_bytes(m), 0) == Some((m, msg_bytes(m).len() as int)),
{
    let e = msg_bytes(m);
    match m {
        SurfaceMsgView::ListReq(v) => {
            lemma_defs_bytes_len(v.surfaces);
            assert(e.subrange(0, 9 + 16 * v.surfaces.len() as int) =~= e);
            lemma_dec_list_req_of_bytes(e, 0, v);
            assert(e[0] == v.subtype.code());
            lemma_message_type_code_round_trip(v.subtype);
        },
        SurfaceMsgView::ListRsp(v) => {
            assert(e.subrange(0, 4) =~= e);
            lemma_dec_list_rsp_of_bytes(e, 0, v);
            assert(e[0] == v.subtype.code());
            lemma_message_type_code_round_trip(v.subtype);
        },
        SurfaceMsgView::MapReq(v) => {
            lemma_maps_bytes_len(v.maps);
            assert(e.subrange(0, 9 + 16 * v.maps.len() as int) =~= e);
            lemma_dec_map_req_of_bytes(e, 0, v);
            assert(e[0] == v.subtype.code());
            lemma_message_type_code_round_trip(v.subtype);
        },
        SurfaceMsgView::MapRsp(v) => {
            assert(e.subrange(0, 4) =~= e);
            lemma_dec_map_rsp_of_bytes(e, 0, v);
            assert(e[0] == v.subtype.code());
            lemma_message_type_code_round_trip(v.subtype);
        },
        SurfaceMsgView::SelectReq(v) => {
            assert(e.subrange(0, 8) =~= e);
            lemma_dec_select_req_of_bytes(e, 0, v);
            assert(e[0] == v.subtype.code());
            lemma_message_type_code_round_trip(v.subtype);
        },
        SurfaceMsgView::SelectRsp(v) => {
            assert(e.subrange(0, 4) =~= e);
            lemma_dec_select_rsp_of_bytes(e, 0, v);
            assert(e[0] == v.subtype.code());
            lemma_message_type_code_round_trip(v.subtype);
        },
    }
}

/// Discriminant fidelity: the wire image of a message whose stored
/// discriminant is canonical starts with the canonical code of its active
/// variant.
pub proof fn lemma_discriminant_fidelity(m: SurfaceMsgView)
    requires
        m.tag_ok(),
    ensures
        msg_bytes(m).len() > 0,
        msg_bytes(m)[0] == m.canonical_type().code(),
{
    match m {
        SurfaceMsgView::ListReq(v) => {
            assert(msg_bytes(m)[0] == v.subtype.code());
        },
        SurfaceMsgView::ListRsp(v) => {
            assert(msg_bytes(m)[0] == v.subtype.code());
        },
        SurfaceMsgView::MapReq(v) => {
            assert(msg_bytes(m)[0] == v.subtype.code());
        },
        SurfaceMsgView::MapRsp(v) => {
            assert(msg_bytes(m)[0] == v.subtype.code());
        },
        SurfaceMsgView::SelectReq(v) => {
            assert(msg_bytes(m)[0] == v.subtype.code());
        },
        SurfaceMsgView::SelectRsp(v) => {
            assert(msg_bytes(m)[0] == v.subtype.code());
        },
    }
}

/// Count fidelity: the count-prefix byte of a list request's wire image
/// equals the number of surfaces it carries.
pub proof fn lemma_surface_count_prefix(v: ListReqView)
    requires
        v.surfaces.len() <= 255,
    ensures
        list_req_bytes(v)[8] == v.surfaces.len() as u8,
{
    assert(list_req_bytes(v)[8] == seq![v.surfaces.len() as u8][0]);
}

/// Count fidelity: the count-prefix byte of a map request's wire image
/// equals the number of mappings it carries.
pub proof fn lemma_mapping_count_prefix(v: MapReqView)
    requires
        v.maps.len() <= 255,
    ensures
        map_req_bytes(v)[8] == v.maps.len() as u8,
{
    assert(map_req_bytes(v)[8] == seq![v.maps.len() as u8][0]);
}

} // verus!

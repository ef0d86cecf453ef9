use wayk_surface::envelope::NowSurfaceMsg;
use wayk_surface::enums::{SurfaceMessageType, SurfaceOrientation};
use wayk_surface::error::{EntityName, ProtoErrorKind};
use wayk_surface::flags::{SurfacePropertiesFlags, SurfaceResponseFlags};
use wayk_surface::messages::{
    NowSurfaceListReqMsg, NowSurfaceListRspMsg, NowSurfaceMapReqMsg, NowSurfaceMapRspMsg,
    NowSurfaceSelectReqMsg, NowSurfaceSelectRspMsg,
};
use wayk_surface::rect::EdgeRect;
use wayk_surface::surface::{NowSurfaceDef, NowSurfaceMap};

fn sample_rect() -> EdgeRect {
    EdgeRect {
        left: 3,
        top: 7,
        right: 640,
        bottom: 480,
    }
}

#[test]
fn list_req_round_trip() {
    let surface = NowSurfaceDef::new(42, sample_rect())
        .flags(SurfacePropertiesFlags::new(0x0106))
        .orientation(SurfaceOrientation::PortraitFlipped);
    let msg = NowSurfaceListReqMsg::new_with_surfaces(9, 800, 600, vec![surface]);
    let bytes = msg.encode().unwrap();
    let back = NowSurfaceListReqMsg::decode(&bytes).unwrap();
    assert_eq!(back.subtype, SurfaceMessageType::ListReq);
    assert_eq!(back.flags, 0);
    assert_eq!(back.sequence_id, 9);
    assert_eq!(back.desktop_width, 800);
    assert_eq!(back.desktop_height, 600);
    assert_eq!(back.surfaces.len(), 1);
    assert_eq!(back.surfaces[0], surface);
}

#[test]
fn list_rsp_round_trip() {
    let msg = NowSurfaceListRspMsg::new(SurfaceResponseFlags::new(SurfaceResponseFlags::FAILURE), 5);
    let bytes = msg.encode().unwrap();
    assert_eq!(bytes, vec![0x02, 0x80, 0x05, 0x00]);
    let back = NowSurfaceMsg::decode(&bytes).unwrap();
    match back {
        NowSurfaceMsg::ListRsp(m) => assert_eq!(m, msg),
        other => panic!("wrong variant: {:?}", other),
    }
}

#[test]
fn map_req_round_trip() {
    let mapping = NowSurfaceMap::new(2, 1, sample_rect());
    let msg = NowSurfaceMapReqMsg::new_with_mappings(11, 1920, 1080, vec![mapping]);
    let bytes = msg.encode().unwrap();
    assert_eq!(bytes[0], 0x03);
    let back = NowSurfaceMsg::decode(&bytes).unwrap();
    match back {
        NowSurfaceMsg::MapReq(m) => {
            assert_eq!(m.subtype, SurfaceMessageType::MapReq);
            assert_eq!(m.sequence_id, 11);
            assert_eq!(m.desktop_width, 1920);
            assert_eq!(m.desktop_height, 1080);
            assert_eq!(m.maps.len(), 1);
            assert_eq!(m.maps[0], mapping);
        }
        other => panic!("wrong variant: {:?}", other),
    }
}

#[test]
fn map_rsp_round_trip() {
    let msg = NowSurfaceMapRspMsg::new(SurfaceResponseFlags::new(0), 1);
    let bytes = msg.encode().unwrap();
    assert_eq!(bytes, vec![0x04, 0x00, 0x01, 0x00]);
    let back = NowSurfaceMsg::decode(&bytes).unwrap();
    match back {
        NowSurfaceMsg::MapRsp(m) => assert_eq!(m, msg),
        other => panic!("wrong variant: {:?}", other),
    }
}

#[test]
fn select_req_round_trip() {
    let msg = NowSurfaceSelectReqMsg::new(7, 1024, 3);
    let bytes = msg.encode().unwrap();
    assert_eq!(bytes, vec![0x05, 0x07, 0x00, 0x04, 0x00, 0x00, 0x03, 0x00]);
    let back = NowSurfaceMsg::decode(&bytes).unwrap();
    match back {
        NowSurfaceMsg::SelectReq(m) => assert_eq!(m, msg),
        other => panic!("wrong variant: {:?}", other),
    }
}

#[test]
fn select_rsp_round_trip() {
    let msg = NowSurfaceSelectRspMsg::new(SurfaceResponseFlags::new(0x81), 65535);
    let bytes = msg.encode().unwrap();
    assert_eq!(bytes, vec![0x06, 0x81, 0xFF, 0xFF]);
    let back = NowSurfaceMsg::decode(&bytes).unwrap();
    match back {
        NowSurfaceMsg::SelectRsp(m) => assert_eq!(m, msg),
        other => panic!("wrong variant: {:?}", other),
    }
}

#[test]
fn first_byte_is_the_canonical_code() {
    let list_req = NowSurfaceListReqMsg::new(0, 1, 1).encode().unwrap();
    assert_eq!(list_req[0], 0x01);
    let list_rsp = NowSurfaceListRspMsg::new(SurfaceResponseFlags::new(0), 0).encode().unwrap();
    assert_eq!(list_rsp[0], 0x02);
    let map_req = NowSurfaceMapReqMsg::new(0, 1, 1).encode().unwrap();
    assert_eq!(map_req[0], 0x03);
    let map_rsp = NowSurfaceMapRspMsg::new(SurfaceResponseFlags::new(0), 0).encode().unwrap();
    assert_eq!(map_rsp[0], 0x04);
    let select_req = NowSurfaceSelectReqMsg::new(0, 0, 0).encode().unwrap();
    assert_eq!(select_req[0], 0x05);
    let select_rsp = NowSurfaceSelectRspMsg::new(SurfaceResponseFlags::new(0), 0).encode().unwrap();
    assert_eq!(select_rsp[0], 0x06);
}

#[test]
fn count_prefix_equals_the_element_count() {
    let empty = NowSurfaceListReqMsg::new(0, 100, 100).encode().unwrap();
    assert_eq!(empty.len(), 9);
    assert_eq!(empty[8], 0);

    let surfaces: Vec<NowSurfaceDef> =
        (0..255).map(|i| NowSurfaceDef::new(i as u16, sample_rect())).collect();
    let full = NowSurfaceListReqMsg::new_with_surfaces(0, 100, 100, surfaces).encode().unwrap();
    assert_eq!(full.len(), 9 + 255 * 16);
    assert_eq!(full[8], 255);
}

#[test]
fn oversized_collection_is_refused_at_encode_time() {
    let surfaces: Vec<NowSurfaceDef> =
        (0..256).map(|i| NowSurfaceDef::new(i as u16, sample_rect())).collect();
    let msg = NowSurfaceListReqMsg::new_with_surfaces(0, 100, 100, surfaces);
    let err = msg.encode().unwrap_err();
    assert!(matches!(
        err.layers[0].kind,
        ProtoErrorKind::Encoding(EntityName::SurfaceListReq)
    ));

    let envelope = NowSurfaceMsg::ListReq(msg);
    let err = envelope.encode().unwrap_err();
    assert!(matches!(err.layers[0].kind, ProtoErrorKind::Encoding(_)));
    assert!(matches!(
        err.layers.last().unwrap().kind,
        ProtoErrorKind::Encoding(EntityName::SurfaceMsg)
    ));
}

#[test]
fn unknown_discriminant_is_rejected() {
    for first in [0x00u8, 0x07, 0x40, 0xFF] {
        let buf = vec![first, 0x00, 0x00, 0x00, 0x00, 0x00, 0x00, 0x00, 0x00];
        let err = NowSurfaceMsg::decode(&buf).unwrap_err();
        assert_eq!(
            err.layers[0].kind,
            ProtoErrorKind::InvalidDiscriminant(EntityName::SurfaceMessageType, first as u16)
        );
        assert_eq!(
            err.layers.last().unwrap().kind,
            ProtoErrorKind::Decoding(EntityName::SurfaceMsg)
        );
    }
}

#[test]
fn empty_buffer_is_a_decoding_failure() {
    let err = NowSurfaceMsg::decode(&[]).unwrap_err();
    assert_eq!(
        err.layers[0].kind,
        ProtoErrorKind::Decoding(EntityName::SurfaceMsg)
    );
}

#[test]
fn default_surface_flags_are_selected_and_primary() {
    let flags = SurfacePropertiesFlags::default();
    assert_eq!(
        flags.value,
        SurfacePropertiesFlags::SELECTED | SurfacePropertiesFlags::PRIMARY
    );
    assert_eq!(flags.value, 0x0009);
    let surface = NowSurfaceDef::new(0, sample_rect());
    assert_eq!(surface.flags.value, 0x0009);
}

#[test]
fn unknown_flag_bits_survive_a_round_trip() {
    let surface = NowSurfaceDef::new(1, sample_rect()).flags(SurfacePropertiesFlags::new(0xABCD));
    let msg = NowSurfaceListReqMsg::new_with_surfaces(0, 10, 10, vec![surface]);
    let bytes = msg.encode().unwrap();
    let back = NowSurfaceListReqMsg::decode(&bytes).unwrap();
    assert_eq!(back.surfaces[0].flags.value, 0xABCD);
}

#[test]
fn truncated_collection_is_a_decoding_failure() {
    // The count byte claims two surfaces; only one follows.
    let mut buf = vec![
        0x01, 0x00, 0x00, 0x00, 0x00, 0x04, 0x00, 0x03, // header
        0x02, // surface count
    ];
    buf.extend_from_slice(&[
        0x10, 0x00, 0x09, 0x00, 0x00, 0x00, 0x00, 0x00, // one full surface
        0x00, 0x00, 0x00, 0x00, 0x00, 0x04, 0x00, 0x03,
    ]);
    let err = NowSurfaceMsg::decode(&buf).unwrap_err();
    assert!(matches!(err.layers[0].kind, ProtoErrorKind::Decoding(_)));
    assert_eq!(
        err.layers.last().unwrap().kind,
        ProtoErrorKind::Decoding(EntityName::SurfaceMsg)
    );
}

#[test]
fn truncated_fixed_header_is_a_decoding_failure() {
    let buf = vec![0x02, 0x00, 0x05]; // a list response cut one byte short
    let err = NowSurfaceMsg::decode(&buf).unwrap_err();
    assert!(matches!(err.layers[0].kind, ProtoErrorKind::Decoding(_)));
}

#[test]
fn invalid_orientation_code_is_rejected() {
    let mut buf = vec![
        0x01, 0x00, 0x00, 0x00, 0x00, 0x04, 0x00, 0x03, // header
        0x01, // surface count
    ];
    buf.extend_from_slice(&[
        0x10, 0x00, 0x09, 0x00, 0x00, 0x00, 0x2D, 0x00, // orientation code 45
        0x00, 0x00, 0x00, 0x00, 0x00, 0x04, 0x00, 0x03,
    ]);
    let err = NowSurfaceMsg::decode(&buf).unwrap_err();
    assert_eq!(
        err.layers[0].kind,
        ProtoErrorKind::InvalidDiscriminant(EntityName::SurfaceOrientation, 45)
    );
}

#[test]
fn orientation_codes_are_the_degree_values() {
    for (o, code) in [
        (SurfaceOrientation::Landscape, 0u16),
        (SurfaceOrientation::Portrait, 90),
        (SurfaceOrientation::LandscapeFlipped, 180),
        (SurfaceOrientation::PortraitFlipped, 270),
    ] {
        assert_eq!(o.to_code(), code);
        assert_eq!(SurfaceOrientation::from_code(code), Some(o));
    }
    assert_eq!(SurfaceOrientation::from_code(1), None);
    assert_eq!(SurfaceOrientation::from_code(360), None);
}

#[test]
fn trailing_bytes_are_ignored_by_decode() {
    let msg = NowSurfaceSelectRspMsg::new(SurfaceResponseFlags::new(0), 2);
    let mut bytes = msg.encode().unwrap();
    bytes.extend_from_slice(&[0xAA, 0xBB]);
    let back = NowSurfaceMsg::decode(&bytes).unwrap();
    match back {
        NowSurfaceMsg::SelectRsp(m) => assert_eq!(m, msg),
        other => panic!("wrong variant: {:?}", other),
    }
}

#[test]
fn envelope_from_lifts_each_variant() {
    let rsp = NowSurfaceListRspMsg::new(SurfaceResponseFlags::new(0), 3);
    let msg: NowSurfaceMsg = rsp.into();
    assert!(matches!(msg, NowSurfaceMsg::ListRsp(m) if m == rsp));
    let sel = NowSurfaceSelectReqMsg::new(0, 1, 2);
    let msg = NowSurfaceMsg::from(sel);
    assert!(matches!(msg, NowSurfaceMsg::SelectReq(m) if m == sel));
}

use wayk_surface::envelope::NowSurfaceMsg;
use wayk_surface::enums::{SurfaceMessageType, SurfaceOrientation};
use wayk_surface::flags::SurfacePropertiesFlags;
use wayk_surface::messages::NowSurfaceListReqMsg;
use wayk_surface::rect::EdgeRect;
use wayk_surface::surface::NowSurfaceDef;

fn surface_list_req_msg() -> Vec<u8> {
    vec![
        0x01, // subtype
        0x00, // flags
        0x00, 0x00, // sequence id
        0x00, 0x04, // desktop width
        0x00, 0x03, // desktop height
        0x01, // surface count
        // surface(s)
        0x10, 0x00, // size
        0x09, 0x00, // flags
        0x00, 0x00, // surface id
        0x00, 0x00, // orientation
        0x00, 0x00, 0x00, 0x00, 0x00, 0x04, 0x00, 0x03, // rect
    ]
}

#[test]
fn decoding_with_subtype_check() {
    let msg = NowSurfaceMsg::decode(&surface_list_req_msg()).unwrap();
    if let NowSurfaceMsg::ListReq(msg) = msg {
        assert_eq!(msg.subtype, SurfaceMessageType::ListReq);
        assert_eq!(msg.sequence_id, 0);
        assert_eq!(msg.desktop_width, 1024);
        assert_eq!(msg.desktop_height, 768);
        assert_eq!(msg.surfaces.len(), 1);
        let surface = &msg.surfaces[0];
        assert_eq!(surface.size, 16);
        assert_eq!(surface.flags, SurfacePropertiesFlags::default());
        assert_eq!(surface.surface_id, 0);
        assert_eq!(surface.orientation, SurfaceOrientation::Landscape);
        let rect = &surface.rect;
        assert_eq!(rect.left, 0);
        assert_eq!(rect.top, 0);
        assert_eq!(rect.right, 1024);
        assert_eq!(rect.bottom, 768);
    } else {
        panic!("expected a surface list req message and got {:?}", msg);
    }
}

#[test]
fn list_req_encoding() {
    let rect = EdgeRect {
        left: 0,
        top: 0,
        right: 1024,
        bottom: 768,
    };
    let surface = NowSurfaceDef::new(0, rect);
    let msg = NowSurfaceListReqMsg::new_with_surfaces(0, 1024, 768, vec![surface]);
    assert_eq!(msg.encode().unwrap(), surface_list_req_msg());
}

#[test]
fn list_req_reencoding_reproduces_the_buffer() {
    let decoded = NowSurfaceMsg::decode(&surface_list_req_msg()).unwrap();
    let mut out: Vec<u8> = Vec::new();
    decoded.encode_into(&mut out).unwrap();
    assert_eq!(out, surface_list_req_msg());
}

#[test]
fn list_req_encoded_len_matches_the_buffer() {
    let decoded = NowSurfaceMsg::decode(&surface_list_req_msg()).unwrap();
    assert_eq!(decoded.encoded_len(), 25);
    assert_eq!(decoded.encode().unwrap().len(), 25);
}

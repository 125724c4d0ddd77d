use aster_drm::builder::{DrmKmsObjectBuilder, PendingObjectPropValue};
use aster_drm::connector::DrmConnType;
use aster_drm::display::DrmDisplayFormat;
use aster_drm::encoder::DrmEncoderType;
use aster_drm::error::{DrmError, DrmFileError, Errno};
use aster_drm::file_objects::{create_dumb_check, dumb_buffers_supported, DrmFileObjects};
use aster_drm::drm_file::DrmDeviceCaps;
use aster_drm::ioctl_types::{
    DrmModeAtomic, DrmModeCreateDumb, DrmModeGetBlob, DrmModeGetEncoder, DrmModeGetPlane, DrmModeGetPlaneRes,
    DrmModeObjectGetProps,
};
use aster_drm::kms_ioctl::{
    atomic_ioctl_check, atomic_ioctl_flags, atomic_object_request, connector_probe_wanted, fault_page_offset,
    get_blob_reply, get_encoder_reply, get_object_props_reply, get_plane_reply, get_plane_resources_reply,
    get_property_reply, map_lookup, map_object_offset, next_prop_index, object_props_args,
};
use aster_drm::object_type::DrmKmsObjectType;
use aster_drm::plane::DrmPlaneType;
use aster_drm::props::DrmPlaneProps;
use aster_drm::store::DrmKmsObjectStore;
use aster_drm::vma_manager::{DrmVmaOffsetManager, DrmVmaOffsetNode};

fn store() -> DrmKmsObjectStore {
    let mut b = DrmKmsObjectBuilder::default();
    let p = b.add_plane(DrmPlaneType::Primary, vec![DrmDisplayFormat::XRGB8888, DrmDisplayFormat::RGB565]);
    let c = b.add_crtc(0, p, None);
    let e = b.add_encoder(DrmEncoderType::VIRTUAL);
    let n = b.add_connector(DrmConnType::VIRTUAL);
    assert_eq!(b.plane_attach_crtc(p, c), Ok(()));
    assert_eq!(b.encoder_attach_crtc(e, c), Ok(()));
    assert_eq!(b.connector_attach_encoder(n, e), Ok(()));
    assert_eq!(b.add_property(p, DrmPlaneProps::CrtcX, PendingObjectPropValue::Value(7), DrmKmsObjectType::Plane), Ok(()));
    b.build().unwrap_or_else(|_| panic!("build"))
}

fn caps(dumb: bool) -> DrmDeviceCaps {
    DrmDeviceCaps {
        has_dumb_buffer: dumb,
        preferred_color_depth_px: 32,
        prefer_shadow_buffer: false,
        has_async_page_flip: false,
        has_flip_target: false,
        cursor_width_px: 0,
        cursor_height_px: 0,
        has_fb_modifiers: false,
        min_fb_width_px: 1,
        max_fb_width_px: 4096,
        min_fb_height_px: 1,
        max_fb_height_px: 4096,
    }
}

#[test]
fn builder_rejects_bad_topology() {
    let mut b = DrmKmsObjectBuilder::default();
    let overlay = b.add_plane(DrmPlaneType::Overlay, vec![DrmDisplayFormat::XRGB8888]);
    let c = b.add_crtc(0, overlay, None);
    assert_eq!(b.plane_attach_crtc(overlay, c), Ok(()));
    assert!(matches!(b.build(), Err(DrmError::Invalid)));
    let mut d = DrmKmsObjectBuilder::default();
    let p = d.add_plane(DrmPlaneType::Primary, vec![]);
    let _ = d.add_crtc(0, p, None);
    assert_eq!(d.plane_attach_crtc(5, 0), Err(DrmError::Invalid));
    assert_eq!(d.encoder_attach_crtc(0, 0), Err(DrmError::Invalid));
    assert_eq!(d.connector_attach_encoder(0, 0), Err(DrmError::Invalid));
    // the primary plane is not attached to its CRTC
    assert!(matches!(d.build(), Err(DrmError::Invalid)));
}

#[test]
fn builder_numbers_connectors_per_type() {
    let mut b = DrmKmsObjectBuilder::default();
    let p = b.add_plane(DrmPlaneType::Primary, vec![]);
    let c = b.add_crtc(0, p, None);
    assert_eq!(b.plane_attach_crtc(p, c), Ok(()));
    b.add_connector(DrmConnType::VIRTUAL);
    b.add_connector(DrmConnType::HDMIA);
    b.add_connector(DrmConnType::VIRTUAL);
    let s = b.build().unwrap_or_else(|_| panic!("build"));
    let ids = s.collect_object_ids(DrmKmsObjectType::Connector, None);
    assert_eq!(ids.len(), 3);
    let c0 = aster_drm::kms_ioctl::get_connector_reply(&s, ids[0], false).ok().unwrap();
    let c1 = aster_drm::kms_ioctl::get_connector_reply(&s, ids[1], false).ok().unwrap();
    let c2 = aster_drm::kms_ioctl::get_connector_reply(&s, ids[2], false).ok().unwrap();
    assert_eq!((c0.connector_type_id, c1.connector_type_id, c2.connector_type_id), (0, 0, 1));
}

#[test]
fn encoder_and_plane_queries() {
    let s = store();
    let enc = s.collect_object_ids(DrmKmsObjectType::Encoder, None)[0];
    let r = get_encoder_reply(&s, DrmModeGetEncoder { encoder_id: enc, encoder_type: 0, crtc_id: 9, possible_crtcs: 0, possible_clones: 5 }).unwrap();
    assert_eq!((r.encoder_id, r.crtc_id, r.encoder_type, r.possible_crtcs, r.possible_clones), (enc, 0, 5, 1, 0));
    assert_eq!(get_encoder_reply(&s, DrmModeGetEncoder { encoder_id: 999, encoder_type: 0, crtc_id: 0, possible_crtcs: 0, possible_clones: 0 }), Err(Errno::ENOENT));
    let (planes, res) = get_plane_resources_reply(&s, DrmModeGetPlaneRes { plane_id_ptr: 0x10, count_planes: 0 });
    assert_eq!(planes.len(), 1);
    assert_eq!(res.count_planes, 1);
    let args = DrmModeGetPlane { plane_id: planes[0], crtc_id: 7, fb_id: 7, possible_crtcs: 0, gamma_size: 3, count_format_types: 0, format_type_ptr: 0 };
    let (codes, reply) = get_plane_reply(&s, args).ok().unwrap();
    assert_eq!(codes, vec![DrmDisplayFormat::XRGB8888.code(), DrmDisplayFormat::RGB565.code()]);
    assert_eq!((reply.crtc_id, reply.fb_id, reply.possible_crtcs, reply.gamma_size, reply.count_format_types), (0, 0, 1, 0, 2));
    assert!(get_plane_reply(&s, DrmModeGetPlane { plane_id: 999, ..args }).is_err());
}

#[test]
fn object_properties_and_blobs() {
    let s = store();
    let plane = s.collect_object_ids(DrmKmsObjectType::Plane, None)[0];
    let args = DrmModeObjectGetProps { props_ptr: 0, prop_values_ptr: 0, count_props: 0, obj_id: plane, obj_type: DrmKmsObjectType::Plane.value() };
    let (ids, values) = get_object_props_reply(&s, args, true).ok().unwrap();
    assert_eq!(ids.len(), values.len());
    assert!(ids.len() >= 3);
    let mut found_crtc_x = false;
    let mut in_formats_blob = None;
    for (i, id) in ids.iter().enumerate() {
        let p = get_property_reply(&s, *id).ok().unwrap();
        if &p.name[..7] == b"CRTC_X\0" {
            found_crtc_x = true;
            assert_eq!(values[i], 7);
        }
        if &p.name[..11] == b"IN_FORMATS\0" {
            in_formats_blob = Some(values[i] as u32);
        }
    }
    assert!(found_crtc_x);
    let blob_id = in_formats_blob.unwrap();
    let (reply, bytes) = get_blob_reply(&s, DrmModeGetBlob { blob_id, length: 8, data: 0x1000 }).ok().unwrap();
    assert_eq!(reply.length, 32);
    assert_eq!(bytes.unwrap().len(), 8);
    let (_, none) = get_blob_reply(&s, DrmModeGetBlob { blob_id, length: 0, data: 0x1000 }).ok().unwrap();
    assert!(none.is_none());
    assert!(get_blob_reply(&s, DrmModeGetBlob { blob_id: 999, length: 0, data: 0 }).is_err());
    let bad_type = DrmModeObjectGetProps { obj_type: 7, ..args };
    assert!(matches!(get_object_props_reply(&s, bad_type, true), Err(DrmFileError::Errno(Errno::EINVAL))));
    assert_eq!(object_props_args(args, 4).count_props, 4);
}

#[test]
fn atomic_ioctl_arguments() {
    let args = DrmModeAtomic { flags: 0, count_objs: 0, objs_ptr: 0, count_props_ptr: 0, props_ptr: 0, prop_values_ptr: 0, reserved: 0, user_data: 0 };
    assert_eq!(atomic_ioctl_check(true, &args), Ok(()));
    assert_eq!(atomic_ioctl_check(false, &args), Err(Errno::EINVAL));
    assert_eq!(atomic_ioctl_check(true, &DrmModeAtomic { reserved: 1, ..args }), Err(Errno::EINVAL));
    assert_eq!(next_prop_index(3, 4), Ok(7));
    assert_eq!(next_prop_index(u32::MAX, 1), Err(Errno::EOVERFLOW));
    assert!(atomic_ioctl_flags(0x0401).is_ok());
    assert!(matches!(atomic_ioctl_flags(0x8000), Err(Errno::EINVAL)));
    let r = atomic_object_request(5, &vec![1, 2, 1], &vec![10, 20, 30, 40]);
    let _ = r;
    assert!(connector_probe_wanted(0, true));
    assert!(!connector_probe_wanted(1, true));
    assert!(!connector_probe_wanted(0, false));
}

#[test]
fn mapping_offsets() {
    let mut vma = DrmVmaOffsetManager::new();
    let mut node = DrmVmaOffsetNode::new();
    assert_eq!(vma.add(42, 8192, &mut node), Ok(()));
    let offset = node.offset_addr() as usize;
    assert_eq!(map_lookup(&vma, offset, 8192), Ok(42));
    assert_eq!(map_lookup(&vma, offset + 4096, 100), Ok(42));
    assert_eq!(map_lookup(&vma, offset + 1, 100), Err(Errno::EINVAL));
    assert_eq!(map_lookup(&vma, offset, 3 * 4096), Err(Errno::EFAULT));
    assert_eq!(map_object_offset(&node, 3, offset + 4096), Err(Errno::EACCES));
    assert_eq!(node.allow(3), Ok(()));
    assert_eq!(map_object_offset(&node, 3, offset + 4096), Ok(4096));
    assert_eq!(map_object_offset(&node, 3, offset - 1), Err(Errno::EFAULT));
    assert_eq!(fault_page_offset(4096, 5000), Ok(8192));
    assert_eq!(fault_page_offset(usize::MAX, 1), Err(Errno::EOVERFLOW));
}

#[test]
fn dumb_buffer_support_checks() {
    assert_eq!(dumb_buffers_supported(&caps(false)), Err(Errno::ENOSYS));
    let args = DrmModeCreateDumb { height: 1, width: 1, bpp: 32, flags: 0, handle: 0, pitch: 0, size: 0 };
    assert_eq!(create_dumb_check(&caps(false), &args), Err(Errno::ENOSYS));
    assert_eq!(create_dumb_check(&caps(true), &DrmModeCreateDumb { width: 0, ..args }), Err(Errno::EINVAL));
    assert_eq!(create_dumb_check(&caps(true), &args), Ok(()));
    let _ = DrmFileObjects::new();
}

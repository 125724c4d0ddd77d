use aster_drm::crtc::DrmCrtc;
use aster_drm::display::{DrmDisplayFormat, DrmDisplayMode};
use aster_drm::plane::DrmPlane;
use aster_drm::drm_file::DrmDeviceCaps;
use aster_drm::error::{DrmError, Errno};
use aster_drm::file_objects::{dumb_buffers_supported, DrmFileObjects, DrmGemRef};
use aster_drm::ioctl_types::{DrmModeCrtc, DrmModeFbCmd2, DrmModeGetResources};
use aster_drm::kms_ioctl::{
    copy_array_to_user_count, get_connector_reply, get_crtc_reply, get_resources_reply, user_array_addresses,
    user_array_ptr_at,
};
use aster_drm::object_type::DrmKmsObjectType;
use aster_drm::simpledrm::{drm_mode_res_mm, FirmwareFb, SimpleDrmDevice};

fn caps() -> DrmDeviceCaps {
    DrmDeviceCaps {
        has_dumb_buffer: true,
        preferred_color_depth_px: 32,
        prefer_shadow_buffer: false,
        has_async_page_flip: false,
        has_flip_target: false,
        cursor_width_px: 0,
        cursor_height_px: 0,
        has_fb_modifiers: false,
        min_fb_width_px: 1,
        max_fb_width_px: 4096,
        min_fb_height_px: 1,
        max_fb_height_px: 4096,
    }
}

fn fb_cmd(handle: u32, width: u32, height: u32, pitch: u32) -> DrmModeFbCmd2 {
    DrmModeFbCmd2 {
        fb_id: 0,
        width,
        height,
        pixel_format: DrmDisplayFormat::XRGB8888.code(),
        flags: 0,
        handles: [handle, 0, 0, 0],
        pitches: [pitch, 0, 0, 0],
        offsets: [0; 4],
        modifier: [0; 4],
    }
}

fn resources_args() -> DrmModeGetResources {
    DrmModeGetResources {
        fb_id_ptr: 0,
        crtc_id_ptr: 0,
        connector_id_ptr: 0,
        encoder_id_ptr: 0,
        count_fbs: 0,
        count_crtcs: 0,
        count_connectors: 0,
        count_encoders: 0,
        min_width: 0,
        max_width: 0,
        min_height: 0,
        max_height: 0,
    }
}

fn crtc_args(crtc_id: u32) -> DrmModeCrtc {
    DrmModeCrtc {
        set_connectors_ptr: 0,
        count_connectors: 0,
        crtc_id,
        fb_id: 0,
        x: 0,
        y: 0,
        gamma_size: 0,
        mode_valid: 0,
        mode: DrmDisplayMode::new(1, 1, 60).to_mode_info(),
    }
}

const FIRMWARE: FirmwareFb = FirmwareFb { width: 1024, height: 768, line_size: 4096 };

#[test]
fn simpledrm_objects() {
    let dev = SimpleDrmDevice::new().unwrap_or_else(|_| panic!("device"));
    let o = dev.objects();
    for t in [DrmKmsObjectType::Plane, DrmKmsObjectType::Crtc, DrmKmsObjectType::Encoder, DrmKmsObjectType::Connector] {
        assert_eq!(o.collect_object_ids(t, None).len(), 1);
    }
    assert_eq!(dev.name(), "simpledrm");
    let r = get_resources_reply(o, resources_args(), 1, 4096, 1, 4096);
    assert_eq!((r.crtc_ids.len(), r.encoder_ids.len(), r.connector_ids.len(), r.framebuffer_ids.len()), (1, 1, 1, 0));
    assert_eq!((r.args.count_crtcs, r.args.max_width), (1, 4096));
}

#[test]
fn connector_probe_reports_firmware_mode() {
    let mut dev = SimpleDrmDevice::new().unwrap_or_else(|_| panic!("device"));
    let conn = dev.objects().collect_object_ids(DrmKmsObjectType::Connector, None)[0];
    let before = get_connector_reply(dev.objects(), conn, false).ok().unwrap();
    assert_eq!(before.connection, 3);
    assert!(before.modes.is_empty());
    assert_eq!(dev.update_connector_state(conn, Some(FIRMWARE)), Ok(()));
    let after = get_connector_reply(dev.objects(), conn, false).ok().unwrap();
    assert_eq!(after.connection, 1);
    assert_eq!(after.modes.len(), 1);
    assert_eq!((after.modes[0].hdisplay, after.modes[0].vdisplay), (1024, 768));
    assert_eq!(after.mm_width, drm_mode_res_mm(1024, 96));
    assert_eq!(drm_mode_res_mm(1024, 96), 270);
    assert_eq!(dev.update_connector_state(conn, None), Ok(()));
    let gone = get_connector_reply(dev.objects(), conn, false).ok().unwrap();
    assert_eq!(gone.connection, 2);
    assert!(get_connector_reply(dev.objects(), 999, false).is_err());
    assert_eq!(dev.update_connector_state(999, None), Err(DrmError::NotFound));
}

#[test]
fn mode_set_copies_into_firmware_framebuffer() {
    let mut dev = SimpleDrmDevice::new().unwrap_or_else(|_| panic!("device"));
    let conn = dev.objects().collect_object_ids(DrmKmsObjectType::Connector, None)[0];
    let crtc = dev.objects().collect_object_ids(DrmKmsObjectType::Crtc, None)[0];
    assert_eq!(dev.update_connector_state(conn, Some(FIRMWARE)), Ok(()));
    let mode = get_connector_reply(dev.objects(), conn, false).ok().unwrap().modes[0].to_display_mode();

    let mut file = DrmFileObjects::new();
    let handle = file.add_gem_object(DrmGemRef { key: 77, size: 4096 * 768 });
    assert_eq!(file.lookup_gem(handle), Ok(DrmGemRef { key: 77, size: 4096 * 768 }));
    let fb = file.create_framebuffer(dev.objects_mut(), &caps(), &fb_cmd(handle, 1024, 768, 4096)).unwrap();

    let copy = dev
        .set_crtc(crtc, fb, 0, 0, Some(mode), vec![conn], Some(FIRMWARE))
        .unwrap_or_else(|_| panic!("mode set"))
        .unwrap();
    assert_eq!(copy.gem_object, 77);
    assert_eq!(copy.line_len, 4096);
    assert!(copy.complete);
    assert_eq!(copy.rows.len(), 768);
    assert_eq!(copy.rows[1], (4096, 4096));

    // the primary plane shows the mode: hdisplay wide, vdisplay high
    let primary = dev.objects().get_object::<DrmCrtc>(crtc).unwrap().primary_plane_id();
    let snap = dev.objects().get_object::<DrmPlane>(primary).unwrap().snapshot();
    assert_eq!((snap.crtc_rect().width(), snap.crtc_rect().height()), (1024, 768));
    assert_eq!((snap.src_rect().width(), snap.src_rect().height()), (1024, 768));
    assert_eq!((snap.fb_id(), snap.crtc_id()), (Some(fb), Some(crtc)));

    let reply = get_crtc_reply(dev.objects(), crtc_args(crtc)).unwrap();
    assert_eq!((reply.fb_id, reply.mode_valid, reply.mode.hdisplay), (fb, 1, 1024));

    let off = dev.set_crtc(crtc, 0, 0, 0, None, vec![], None);
    assert!(matches!(off, Ok(None)));
    let reply = get_crtc_reply(dev.objects(), crtc_args(crtc)).unwrap();
    assert_eq!(reply.mode_valid, 0);
}

#[test]
fn mode_set_errors() {
    let mut dev = SimpleDrmDevice::new().unwrap_or_else(|_| panic!("device"));
    let conn = dev.objects().collect_object_ids(DrmKmsObjectType::Connector, None)[0];
    let crtc = dev.objects().collect_object_ids(DrmKmsObjectType::Crtc, None)[0];
    let mode = DrmDisplayMode::new(1024, 768, 60);
    let mut file = DrmFileObjects::new();
    let handle = file.add_gem_object(DrmGemRef { key: 5, size: 4096 * 768 });
    let fb = file.create_framebuffer(dev.objects_mut(), &caps(), &fb_cmd(handle, 800, 600, 4096)).unwrap();
    // the framebuffer is smaller than the mode
    assert!(matches!(dev.set_crtc(crtc, fb, 0, 0, Some(mode), vec![conn], Some(FIRMWARE)), Err(DrmError::Invalid)));
    // unknown CRTC and framebuffer
    assert!(matches!(dev.set_crtc(999, fb, 0, 0, Some(mode), vec![conn], Some(FIRMWARE)), Err(DrmError::NotFound)));
    assert!(matches!(dev.set_crtc(crtc, 999, 0, 0, Some(mode), vec![conn], Some(FIRMWARE)), Err(DrmError::NotFound)));
    let small = DrmDisplayMode::new(640, 480, 60);
    // no connector
    assert!(matches!(dev.set_crtc(crtc, fb, 0, 0, Some(small), vec![], Some(FIRMWARE)), Err(DrmError::Invalid)));
    // no boot framebuffer to copy into
    assert!(matches!(dev.set_crtc(crtc, fb, 0, 0, Some(small), vec![conn], None), Err(DrmError::NotFound)));
}

#[test]
fn framebuffer_requests_are_checked() {
    let mut dev = SimpleDrmDevice::new().unwrap_or_else(|_| panic!("device"));
    let mut file = DrmFileObjects::new();
    let handle = file.add_gem_object(DrmGemRef { key: 9, size: 4096 });
    let objects = dev.objects_mut();
    assert_eq!(file.create_framebuffer(objects, &caps(), &fb_cmd(handle, 0, 1, 64)), Err(Errno::EINVAL));
    assert_eq!(file.create_framebuffer(objects, &caps(), &fb_cmd(handle, 5000, 1, 64)), Err(Errno::EINVAL));
    assert_eq!(file.create_framebuffer(objects, &caps(), &fb_cmd(handle + 1, 16, 1, 64)), Err(Errno::ENONET));
    assert_eq!(file.create_framebuffer(objects, &caps(), &fb_cmd(handle, 16, 2, 4096)), Err(Errno::EINVAL));
    let mut bad_format = fb_cmd(handle, 16, 1, 64);
    bad_format.pixel_format = 0x1234;
    assert_eq!(file.create_framebuffer(objects, &caps(), &bad_format), Err(Errno::EINVAL));
    let mut modifiers = fb_cmd(handle, 16, 1, 64);
    modifiers.flags = 2;
    assert_eq!(file.create_framebuffer(objects, &caps(), &modifiers), Err(Errno::EOPNOTSUPP));
    let fb = file.create_framebuffer(objects, &caps(), &fb_cmd(handle, 16, 1, 64)).unwrap();
    assert_eq!(file.rm_fb(objects, fb), Ok(()));
    assert_eq!(file.rm_fb(objects, fb), Err(Errno::ENOENT));
}

#[test]
fn gem_handles() {
    let mut file = DrmFileObjects::new();
    let a = file.add_gem_object(DrmGemRef { key: 1, size: 10 });
    let b = file.add_gem_object(DrmGemRef { key: 2, size: 20 });
    assert_eq!((a, b), (1, 2));
    assert_eq!(file.lookup_gem(b), Ok(DrmGemRef { key: 2, size: 20 }));
    assert_eq!(file.remove_gem_object(a), Some(DrmGemRef { key: 1, size: 10 }));
    assert_eq!(file.remove_gem_object(a), None);
    assert_eq!(file.lookup_gem(a), Err(Errno::ENONET));
}

#[test]
fn blobs_and_release() {
    let mut dev = SimpleDrmDevice::new().unwrap_or_else(|_| panic!("device"));
    let mut file = DrmFileObjects::new();
    let handle = file.add_gem_object(DrmGemRef { key: 3, size: 4096 });
    let objects = dev.objects_mut();
    let blob = file.create_blob(objects, vec![1, 2, 3]).unwrap_or_else(|_| panic!("blob"));
    let empty = file.create_blob(objects, vec![]).unwrap_or_else(|_| panic!("empty blob"));
    assert_eq!(empty, blob + 1);
    assert_eq!(file.destroy_blob(objects, blob + 100), Err(Errno::EPERM));
    assert_eq!(file.destroy_blob(objects, empty), Ok(()));
    assert_eq!(file.destroy_blob(objects, empty), Err(Errno::EPERM));
    let fb = file.create_framebuffer(objects, &caps(), &fb_cmd(handle, 16, 1, 64)).unwrap();
    let gems = file.release(objects);
    assert_eq!(gems, vec![DrmGemRef { key: 3, size: 4096 }]);
    assert_eq!(file.rm_fb(objects, fb), Err(Errno::ENOENT));
    assert_eq!(file.lookup_gem(handle), Err(Errno::ENONET));
    assert_eq!(dumb_buffers_supported(&caps()), Ok(()));
}

#[test]
fn user_array_helpers() {
    assert_eq!(copy_array_to_user_count(0, 10, 3), Ok(0));
    assert_eq!(copy_array_to_user_count(0x1000, 2, 3), Ok(2));
    assert_eq!(copy_array_to_user_count(0x1000, 5, 3), Ok(3));
    assert_eq!(user_array_ptr_at(0x1000, 3, 4), Ok(0x100c));
    assert_eq!(user_array_ptr_at(u64::MAX, 1, 4), Err(Errno::EOVERFLOW));
    let (addrs, all) = user_array_addresses(0x2000, 3, 8);
    assert!(all);
    assert_eq!(addrs, vec![0x2000, 0x2008, 0x2010]);
}

use aster_drm::drm_file::{
    get_cap_value, master_after_set, version_reply, DrmDeviceCaps, DrmDeviceFeatures, DrmFileAuthState, DrmFileCaps, DrmGetCapability,
    DrmSetCapability, DrmVersion,
};
use aster_drm::error::Errno;
use aster_drm::ioctl_defs::{DrmGetCap, DrmModeCrtc, DrmModeGetConnector, DrmModeGetEncoder, DrmModePageFlip};
use aster_drm::simple_kms::{
    current_mode, handle_get_cap, handle_get_connector, handle_get_crtc, handle_get_encoder, handle_page_flip,
    handle_version, set_crtc_check, set_crtc_connector_check, set_crtc_target,
};

fn features(modeset: bool, atomic: bool) -> DrmDeviceFeatures {
    DrmDeviceFeatures { modeset, atomic, syncobj: false, syncobj_timeline: true, cursor_hotspot: false }
}

fn caps() -> DrmDeviceCaps {
    DrmDeviceCaps {
        has_dumb_buffer: true,
        preferred_color_depth_px: 24,
        prefer_shadow_buffer: false,
        has_async_page_flip: true,
        has_flip_target: false,
        cursor_width_px: 64,
        cursor_height_px: 32,
        has_fb_modifiers: false,
        min_fb_width_px: 0,
        max_fb_width_px: 8192,
        min_fb_height_px: 0,
        max_fb_height_px: 8192,
    }
}

#[test]
fn capability_numbers() {
    assert_eq!(DrmGetCapability::from_raw(0x1), Some(DrmGetCapability::DumbBuffer));
    assert_eq!(DrmGetCapability::from_raw(0x15), Some(DrmGetCapability::AtomicAsyncPageFlip));
    assert_eq!(DrmGetCapability::from_raw(0xa), None);
    assert_eq!(DrmSetCapability::from_raw(0x3), Some(DrmSetCapability::Atomic));
    assert_eq!(DrmSetCapability::from_raw(0x7), None);
}

#[test]
fn device_capability_values() {
    let f = features(true, false);
    assert_eq!(get_cap_value(0x6, &f, &caps()), Ok(1));
    assert_eq!(get_cap_value(0x5, &f, &caps()), Ok(3));
    assert_eq!(get_cap_value(0x13, &f, &caps()), Ok(0));
    assert_eq!(get_cap_value(0x14, &f, &caps()), Ok(1));
    assert_eq!(get_cap_value(0x1, &f, &caps()), Ok(1));
    assert_eq!(get_cap_value(0x3, &f, &caps()), Ok(24));
    assert_eq!(get_cap_value(0x9, &f, &caps()), Ok(32));
    assert_eq!(get_cap_value(0x15, &f, &caps()), Ok(0));
    assert_eq!(get_cap_value(0x15, &features(true, true), &caps()), Ok(1));
    assert_eq!(get_cap_value(0x1, &features(false, false), &caps()), Err(Errno::EOPNOTSUPP));
    assert_eq!(get_cap_value(0x6, &features(false, false), &caps()), Ok(1));
    assert_eq!(get_cap_value(0x99, &f, &caps()), Err(Errno::EINVAL));
}

#[test]
fn client_caps_atomic_sets_universal_planes() {
    let mut c = DrmFileCaps::default();
    assert_eq!(c.set_client_cap(0x3, 2, &features(true, true)), Ok(()));
    assert!(c.has_atomic && c.has_universal_planes && c.has_aspect_ratio);
    assert_eq!(c.set_client_cap(0x3, 1, &features(true, true)), Ok(()));
    assert!(c.has_atomic && c.has_universal_planes && !c.has_aspect_ratio);
}

#[test]
fn client_caps_errors_change_nothing() {
    let mut c = DrmFileCaps::default();
    assert_eq!(c.set_client_cap(0x3, 1, &features(true, false)), Err(Errno::EOPNOTSUPP));
    assert_eq!(c.set_client_cap(0x1, 2, &features(true, true)), Err(Errno::EINVAL));
    assert_eq!(c.set_client_cap(0x5, 1, &features(true, true)), Err(Errno::EINVAL));
    assert_eq!(c.set_client_cap(0x8, 1, &features(true, true)), Err(Errno::EINVAL));
    assert_eq!(c, DrmFileCaps::default());
    assert_eq!(c.set_client_cap(0x3, 1, &features(true, true)), Ok(()));
    assert_eq!(c.set_client_cap(0x5, 1, &features(true, true)), Ok(()));
    assert!(c.has_writeback_connectors);
    assert_eq!(c.set_client_cap(0x6, 1, &features(true, true)), Err(Errno::EOPNOTSUPP));
    assert_eq!(c.set_client_cap(0x1, 1, &features(true, true)), Ok(()));
    assert!(c.has_stereo);
}

#[test]
fn master_permissions() {
    let mut s = DrmFileAuthState::new(10, false);
    assert!(!s.master_check_perm(false, Some(10)));
    assert!(s.master_check_perm(true, None));
    s.update_owner_process(Some(11));
    assert_eq!(s.owner_process_pid, 11);
    assert_eq!(s.check_set_master(false, Some(11)), Err(Errno::EACCES));
    s.master_taken();
    assert!(s.is_authenticated(false));
    // once master, the owner no longer follows the caller
    s.update_owner_process(Some(12));
    assert_eq!(s.owner_process_pid, 11);
    assert_eq!(s.check_set_master(false, Some(11)), Ok(()));
    assert_eq!(s.check_drop_master(false, Some(12), true), Err(Errno::EACCES));
    assert_eq!(s.check_drop_master(false, Some(11), false), Err(Errno::EINVAL));
    assert_eq!(s.check_drop_master(false, Some(11), true), Ok(()));
}

#[test]
fn version_copies_truncated_fields() {
    let args = DrmVersion {
        version_major: 9,
        version_minor: 9,
        version_patchlevel: 9,
        name_len: 4,
        name: 0x1000,
        date_len: 0,
        date: 0x2000,
        desc_len: 100,
        desc: 0x3000,
    };
    let (reply, writes) = version_reply(args, 9, 20);
    assert_eq!((reply.version_major, reply.version_minor, reply.version_patchlevel), (0, 0, 0));
    assert_eq!((reply.name_len, reply.desc_len, reply.date_len), (9, 20, 1));
    assert_eq!((reply.name, reply.desc, reply.date), (0x1000, 0x3000, 0x2000));
    assert_eq!((writes.name, writes.desc, writes.date), (Some(4), Some(20), None));
}

#[test]
fn simple_version_and_caps() {
    let v = handle_version();
    assert_eq!(v.version_major, 1);
    assert_eq!(&v.name[..18], b"AsterinasSimpleDrm");
    assert_eq!(v.name[18], 0);
    assert_eq!(&v.date[..8], b"20260413");
    let c = handle_get_cap(DrmGetCap { capability: 3, value: 0 }).unwrap();
    assert_eq!(c.value, 32);
    assert_eq!(handle_get_cap(DrmGetCap { capability: 2, value: 7 }).unwrap().value, 0);
    assert_eq!(handle_get_cap(DrmGetCap { capability: 4, value: 0 }), Err(Errno::EINVAL));
}

#[test]
fn simple_mode() {
    let m = current_mode(None);
    assert_eq!((m.hdisplay, m.vdisplay, m.vrefresh), (1024, 768, 60));
    let f = current_mode(Some((800, 600)));
    assert_eq!((f.hdisplay, f.vdisplay), (800, 600));
}

#[test]
fn simple_encoder_and_connector() {
    let e = handle_get_encoder(DrmModeGetEncoder { encoder_id: 0, ..Default::default() }).unwrap();
    assert_eq!((e.encoder_id, e.encoder_type, e.crtc_id, e.possible_crtcs), (1, 3, 1, 1));
    assert_eq!(handle_get_encoder(DrmModeGetEncoder { encoder_id: 2, ..Default::default() }), Err(Errno::ENOENT));
    let mut args = DrmModeGetConnector::default();
    args.connector_id = 1;
    args.count_modes = 1;
    args.modes_ptr = 0x5000;
    let (reply, writes) = handle_get_connector(args).ok().unwrap();
    assert_eq!((reply.connection, reply.count_modes, reply.mm_width), (1, 1, 2560));
    // an HDMI-A connector
    assert_eq!((reply.connector_type, reply.connector_type_id), (11, 1));
    assert_eq!((writes.mode_at, writes.encoder_at), (Some(0x5000), None));
    args.connector_id = 3;
    assert!(handle_get_connector(args).is_err());
}

#[test]
fn simple_crtc_requests() {
    let mode = current_mode(None);
    let mut args = DrmModeCrtc::new();
    let off = handle_get_crtc(args, None, mode).unwrap();
    assert_eq!((off.crtc_id, off.fb_id, off.mode_valid), (1, 0, 0));
    let on = handle_get_crtc(args, Some(4), mode).unwrap();
    assert_eq!((on.fb_id, on.mode_valid, on.mode.hdisplay), (4, 1, 1024));
    args.crtc_id = 2;
    assert!(handle_get_crtc(args, None, mode).is_err());
    assert_eq!(set_crtc_check(&args, true), Err(Errno::ENOENT));
    args.crtc_id = 1;
    args.x = 5;
    assert_eq!(set_crtc_check(&args, true), Err(Errno::EINVAL));
    args.x = 0;
    args.fb_id = 3;
    assert_eq!(set_crtc_check(&args, false), Err(Errno::ENOENT));
    args.count_connectors = 1;
    assert_eq!(set_crtc_check(&args, true), Err(Errno::EINVAL));
    args.set_connectors_ptr = 0x100;
    assert_eq!(set_crtc_check(&args, true), Ok(()));
    assert_eq!(set_crtc_connector_check(1), Ok(()));
    assert!(set_crtc_connector_check(2).is_err());
    assert_eq!(set_crtc_target(&args, &mode), Ok(Some(3)));
    args.mode_valid = 1;
    args.mode = current_mode(Some((800, 600)));
    assert_eq!(set_crtc_target(&args, &mode), Err(Errno::EINVAL));
    args.mode = mode;
    args.fb_id = 0;
    assert_eq!(set_crtc_target(&args, &mode), Ok(None));
}

#[test]
fn simple_page_flip() {
    let flip = DrmModePageFlip { crtc_id: 1, fb_id: 5, ..Default::default() };
    assert_eq!(handle_page_flip(&flip, true), Ok(5));
    assert_eq!(handle_page_flip(&flip, false), Err(Errno::ENOENT));
    let other = DrmModePageFlip { crtc_id: 2, ..flip };
    assert_eq!(handle_page_flip(&other, true), Err(Errno::ENOENT));
}

#[test]
fn master_role_goes_to_one_file() {
    assert_eq!(master_after_set(None, 3), Ok(3));
    assert_eq!(master_after_set(Some(3), 3), Ok(3));
    assert_eq!(master_after_set(Some(4), 3), Err(Errno::EBUSY));
}

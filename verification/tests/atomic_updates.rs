use std::cell::RefCell;
use std::sync::{Arc, Mutex};

use aster_drm::atomic::{
    atomic_commit_request, atomic_commit_tail, atomic_dirty_fb, atomic_page_flip, atomic_set_crtc, DrmAtomicObjectRequest,
    DrmAtomicOps,
};
use aster_drm::builder::{DrmKmsObjectBuilder, PendingObjectPropValue};
use aster_drm::connector::DrmConnType;
use aster_drm::crtc::DrmCrtc;
use aster_drm::encoder::DrmEncoderType;
use aster_drm::plane::DrmPlaneType;
use aster_drm::props::DrmPlaneProps;
use aster_drm::display::{DrmDisplayFormat, DrmDisplayMode};
use aster_drm::drm_file::DrmDeviceCaps;
use aster_drm::effect::DrmAtomicFlags;
use aster_drm::error::DrmError;
use aster_drm::file_objects::{DrmFileObjects, DrmGemRef};
use aster_drm::ioctl_types::DrmModeFbCmd2;
use aster_drm::kms_ioctl::get_property_reply;
use aster_drm::object_type::{DrmKmsObjectType, KmsObjectId};
use aster_drm::plane::DrmPlane;
use aster_drm::simpledrm::{FirmwareFb, SimpleDrmDevice};
use aster_drm::store::DrmKmsObjectStore;
use aster_drm::vblank::{DrmIoctlEventCtx, DrmVblankState};

#[derive(Default)]
struct Events {
    sent: Mutex<Vec<Vec<u8>>>,
}

impl DrmIoctlEventCtx for Events {
    fn vblank_event_callback(&self, bytes: &[u8]) {
        self.sent.lock().unwrap().push(bytes.to_vec());
    }
}

#[derive(Default)]
struct Flushes {
    crtcs: RefCell<Vec<KmsObjectId>>,
}

impl DrmAtomicOps for Flushes {
    fn atomic_flush(&self, crtc_id: KmsObjectId) -> Result<(), DrmError> {
        self.crtcs.borrow_mut().push(crtc_id);
        Ok(())
    }
}

fn caps() -> DrmDeviceCaps {
    DrmDeviceCaps {
        has_dumb_buffer: true,
        preferred_color_depth_px: 32,
        prefer_shadow_buffer: false,
        has_async_page_flip: false,
        has_flip_target: false,
        cursor_width_px: 0,
        cursor_height_px: 0,
        has_fb_modifiers: false,
        min_fb_width_px: 1,
        max_fb_width_px: 4096,
        min_fb_height_px: 1,
        max_fb_height_px: 4096,
    }
}

fn fb_cmd(handle: u32) -> DrmModeFbCmd2 {
    DrmModeFbCmd2 {
        fb_id: 0,
        width: 640,
        height: 480,
        pixel_format: DrmDisplayFormat::XRGB8888.code(),
        flags: 0,
        handles: [handle, 0, 0, 0],
        pitches: [2560, 0, 0, 0],
        offsets: [0; 4],
        modifier: [0; 4],
    }
}

struct Setup {
    dev: SimpleDrmDevice,
    file: DrmFileObjects,
    crtc: KmsObjectId,
    plane: KmsObjectId,
    conn: KmsObjectId,
    fb: KmsObjectId,
}

fn setup() -> Setup {
    let mut dev = SimpleDrmDevice::new().unwrap_or_else(|_| panic!("device"));
    let crtc = dev.objects().collect_object_ids(DrmKmsObjectType::Crtc, None)[0];
    let plane = dev.objects().collect_object_ids(DrmKmsObjectType::Plane, None)[0];
    let conn = dev.objects().collect_object_ids(DrmKmsObjectType::Connector, None)[0];
    let fw = FirmwareFb { width: 640, height: 480, line_size: 2560 };
    assert_eq!(dev.update_connector_state(conn, Some(fw)), Ok(()));
    let mut file = DrmFileObjects::new();
    let handle = file.add_gem_object(DrmGemRef { key: 1, size: 2560 * 480 });
    let fb = file.create_framebuffer(dev.objects_mut(), &caps(), &fb_cmd(handle)).unwrap();
    Setup { dev, file, crtc, plane, conn, fb }
}

fn plane_fb(objects: &DrmKmsObjectStore, plane: KmsObjectId) -> Option<KmsObjectId> {
    objects.get_object::<DrmPlane>(plane).unwrap().state().fb_id
}

fn prop_id(objects: &DrmKmsObjectStore, object: KmsObjectId, t: DrmKmsObjectType, name: &[u8]) -> KmsObjectId {
    let props = objects.get_object_props(object, t).unwrap_or_else(|_| panic!("props"));
    for id in props.ids() {
        let reply = get_property_reply(objects, id).ok().unwrap();
        if &reply.name[..name.len()] == name && reply.name[name.len()] == 0 {
            return id;
        }
    }
    panic!("no such property")
}

#[test]
fn legacy_set_crtc_through_atomic_path() {
    let mut s = setup();
    let mode = DrmDisplayMode::new(640, 480, 60);
    let state = atomic_set_crtc(s.dev.objects_mut(), s.crtc, s.fb, 0, 0, Some(mode), vec![s.conn]).unwrap();
    assert_eq!(state.effect().affected_crtcs(), &[s.crtc][..]);
    assert!(state.effect().request_modeset());
    assert_eq!(plane_fb(s.dev.objects(), s.plane), Some(s.fb));
    let crtc = s.dev.objects().get_object::<DrmCrtc>(s.crtc).unwrap();
    assert!(crtc.state().enable && crtc.state().active);
    let flushes = Flushes::default();
    assert_eq!(atomic_commit_tail(&flushes, state, DrmAtomicFlags::empty()), Ok(()));
    assert_eq!(*flushes.crtcs.borrow(), vec![s.crtc]);
    // turning the CRTC off
    let off = atomic_set_crtc(s.dev.objects_mut(), s.crtc, 0, 0, 0, None, vec![]).unwrap();
    assert_eq!(off.effect().affected_crtcs(), &[s.crtc][..]);
    assert_eq!(plane_fb(s.dev.objects(), s.plane), None);
    let _ = s.file.release(s.dev.objects_mut());
}

#[test]
fn set_crtc_of_unknown_objects_fails() {
    let mut s = setup();
    let mode = DrmDisplayMode::new(640, 480, 60);
    assert_eq!(atomic_set_crtc(s.dev.objects_mut(), 999, s.fb, 0, 0, Some(mode), vec![s.conn]).err(), Some(DrmError::NotFound));
    assert_eq!(plane_fb(s.dev.objects(), s.plane), None);
}

#[test]
fn page_flip_sends_event_at_vblank() {
    let mut s = setup();
    let mode = DrmDisplayMode::new(640, 480, 60);
    atomic_set_crtc(s.dev.objects_mut(), s.crtc, s.fb, 0, 0, Some(mode), vec![s.conn]).unwrap();
    let events = Arc::new(Events::default());
    let ctx: Arc<dyn DrmIoctlEventCtx> = events.clone();
    let handle = s.file.add_gem_object(DrmGemRef { key: 2, size: 2560 * 480 });
    let fb2 = s.file.create_framebuffer(s.dev.objects_mut(), &caps(), &fb_cmd(handle)).unwrap();
    // flipping to the framebuffer already shown owes no event
    let same = atomic_page_flip(s.dev.objects_mut(), s.crtc, s.fb, 0xabcd, &ctx).unwrap();
    assert!(same.effect().event_crtcs().is_empty());
    let flip = atomic_page_flip(s.dev.objects_mut(), s.crtc, fb2, 0xabcd, &ctx).unwrap();
    assert_eq!(plane_fb(s.dev.objects(), s.plane), Some(fb2));
    assert_eq!(flip.effect().event_crtcs(), &[s.crtc][..]);
    assert!(events.sent.lock().unwrap().is_empty());
    assert_eq!(s.dev.objects_mut().handle_crtc_vblank(s.crtc, (5, 250_000_000)), Ok(()));
    let sent = events.sent.lock().unwrap();
    assert_eq!(sent.len(), 1);
    let e = &sent[0];
    assert_eq!(e.len(), 32);
    assert_eq!(u32::from_le_bytes([e[0], e[1], e[2], e[3]]), 2);
    assert_eq!(u32::from_le_bytes([e[4], e[5], e[6], e[7]]), 32);
    assert_eq!(u64::from_le_bytes([e[8], e[9], e[10], e[11], e[12], e[13], e[14], e[15]]), 0xabcd);
    assert_eq!(u32::from_le_bytes([e[16], e[17], e[18], e[19]]), 5);
    assert_eq!(u32::from_le_bytes([e[20], e[21], e[22], e[23]]), 250_000);
    assert_eq!(u32::from_le_bytes([e[28], e[29], e[30], e[31]]), s.crtc);
}

#[test]
fn dirty_fb_touches_crtcs_showing_it() {
    let mut s = setup();
    let idle = atomic_dirty_fb(s.dev.objects(), s.fb).unwrap();
    assert!(idle.effect().affected_crtcs().is_empty());
    let mode = DrmDisplayMode::new(640, 480, 60);
    atomic_set_crtc(s.dev.objects_mut(), s.crtc, s.fb, 0, 0, Some(mode), vec![s.conn]).unwrap();
    let shown = atomic_dirty_fb(s.dev.objects(), s.fb).unwrap();
    assert_eq!(shown.effect().affected_crtcs(), &[s.crtc][..]);
    assert!(atomic_dirty_fb(s.dev.objects(), 999).is_err());
}

fn built_store() -> (DrmKmsObjectStore, KmsObjectId, KmsObjectId, KmsObjectId) {
    let mut b = DrmKmsObjectBuilder::default();
    let p = b.add_plane(DrmPlaneType::Primary, vec![DrmDisplayFormat::XRGB8888]);
    let c = b.add_crtc(0, p, None);
    let e = b.add_encoder(DrmEncoderType::VIRTUAL);
    let n = b.add_connector(DrmConnType::VIRTUAL);
    assert_eq!(b.plane_attach_crtc(p, c), Ok(()));
    assert_eq!(b.encoder_attach_crtc(e, c), Ok(()));
    assert_eq!(b.connector_attach_encoder(n, e), Ok(()));
    assert_eq!(b.add_property(p, DrmPlaneProps::FbId, PendingObjectPropValue::Value(0), DrmKmsObjectType::Plane), Ok(()));
    assert_eq!(b.add_property(p, DrmPlaneProps::CrtcId, PendingObjectPropValue::Value(0), DrmKmsObjectType::Plane), Ok(()));
    let store = b.build().unwrap_or_else(|_| panic!("build"));
    let plane = store.collect_object_ids(DrmKmsObjectType::Plane, None)[0];
    let crtc = store.collect_object_ids(DrmKmsObjectType::Crtc, None)[0];
    let conn = store.collect_object_ids(DrmKmsObjectType::Connector, None)[0];
    (store, plane, crtc, conn)
}

#[test]
fn atomic_requests() {
    let (mut store, plane, crtc, conn) = built_store();
    let mut file = DrmFileObjects::new();
    let h = file.add_gem_object(DrmGemRef { key: 4, size: 2560 * 480 });
    let fb1 = file.create_framebuffer(&mut store, &caps(), &fb_cmd(h)).unwrap();
    let fb2 = file.create_framebuffer(&mut store, &caps(), &fb_cmd(h)).unwrap();
    let mode = DrmDisplayMode::new(640, 480, 60);
    atomic_set_crtc(&mut store, crtc, fb1, 0, 0, Some(mode), vec![conn]).unwrap();
    assert_eq!(plane_fb(&store, plane), Some(fb1));

    let sent = Arc::new(Events::default());
    let events: Arc<dyn DrmIoctlEventCtx> = sent.clone();
    let fb_prop = prop_id(&store, plane, DrmKmsObjectType::Plane, b"FB_ID");
    let request = || {
        let mut req = DrmAtomicObjectRequest::new(plane);
        req.add_property(fb_prop, fb2 as u64);
        vec![req]
    };
    let test_only = DrmAtomicFlags::from_bits(0x0100).unwrap();
    assert!(matches!(atomic_commit_request(&mut store, request(), test_only, 0, &events), Ok(None)));
    assert_eq!(plane_fb(&store, plane), Some(fb1));

    let nonblock = DrmAtomicFlags::from_bits(0x0200).unwrap();
    assert!(matches!(atomic_commit_request(&mut store, request(), nonblock, 0, &events), Err(DrmError::NotSupported)));

    let mut bad = DrmAtomicObjectRequest::new(999);
    bad.add_property(fb_prop, fb2 as u64);
    assert!(atomic_commit_request(&mut store, vec![bad], DrmAtomicFlags::empty(), 0, &events).is_err());
    assert_eq!(plane_fb(&store, plane), Some(fb1));

    let with_event = DrmAtomicFlags::from_bits(0x0001).unwrap();
    let r = atomic_commit_request(&mut store, request(), with_event, 77, &events);
    let state = match r {
        Ok(Some(state)) => state,
        _ => panic!("commit"),
    };
    assert_eq!(state.effect().event_crtcs(), &[crtc][..]);
    assert_eq!(plane_fb(&store, plane), Some(fb2));
    assert_eq!(store.handle_crtc_vblank(crtc, (1, 0)), Ok(()));
    assert_eq!(sent.sent.lock().unwrap().len(), 1);

    // requests are decoded in order: a later write of a property wins
    let mut first = DrmAtomicObjectRequest::new(plane);
    first.add_property(fb_prop, fb2 as u64);
    let mut second = DrmAtomicObjectRequest::new(plane);
    second.add_property(fb_prop, fb1 as u64);
    assert!(matches!(atomic_commit_request(&mut store, vec![first, second], DrmAtomicFlags::empty(), 0, &events), Ok(Some(_))));
    assert_eq!(plane_fb(&store, plane), Some(fb1));
}

#[test]
fn vblank_counter() {
    let mut v = DrmVblankState::new();
    assert_eq!(v.sequence(), 0);
    assert_eq!(v.increment(), 1);
    assert_eq!(v.increment(), 2);
    v.update_time((3, 4));
    assert_eq!(*v.last_time(), (3, 4));
    assert!(v.take_pending_events(2).is_empty());
}

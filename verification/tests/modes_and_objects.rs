use aster_drm::blob::DrmPropertyBlob;
use aster_drm::display::{
    fourcc_code, DrmDisplayFormat, DrmDisplayInfo, DrmDisplayMode, DrmModeFlag, DrmModeModeInfo, SubpixelOrder,
};
use aster_drm::effect::{DrmAtomicEffect, DrmAtomicFlags};
use aster_drm::error::DrmError;
use aster_drm::geometry::RectU32;
use aster_drm::mask::{mask_contains, mask_of};
use aster_drm::object_type::{ids_contain, DrmKmsObjectType};

#[test]
fn simple_mode_timings() {
    let m = DrmDisplayMode::new(1024, 768, 60);
    assert_eq!((m.hdisplay(), m.vdisplay()), (1024, 768));
    assert_eq!(m.clock, 1024 * 768 * 60 / 1000);
    assert_eq!(m.type_, 0x40);
    assert_eq!(&m.name[..8], b"1024x768");
    assert_eq!(m.name[8], 0);
    assert_eq!(m.vrefresh(), 60);
}

#[test]
fn vrefresh_of_interlaced_and_doublescan() {
    let mut m = DrmDisplayMode::new(100, 100, 60);
    m.clock = 600;
    assert_eq!(m.vrefresh(), 60);
    m.flags = DrmModeFlag::INTERLACE().bits();
    assert_eq!(m.vrefresh(), 120);
    m.flags = DrmModeFlag::DBLSCAN().bits();
    assert_eq!(m.vrefresh(), 30);
    m.flags = 0;
    m.vscan = 3;
    assert_eq!(m.vrefresh(), 20);
    m.htotal = 0;
    assert_eq!(m.vrefresh(), 0);
}

#[test]
fn mode_info_round_trip() {
    let m = DrmDisplayMode::new(800, 600, 75);
    let info = m.to_mode_info();
    assert_eq!(info.vrefresh, 75);
    assert_eq!(info.hdisplay, 800);
    assert_eq!(info.to_display_mode(), m);
    let via_into: DrmModeModeInfo = m.into();
    assert_eq!(via_into, info);
    let back: DrmDisplayMode = via_into.into();
    assert_eq!(back, m);
}

fn mode_bytes(w: u16, h: u16) -> Vec<u8> {
    let mut b = Vec::new();
    b.extend_from_slice(&12345u32.to_le_bytes());
    for v in [w, w + 10, w + 20, w + 30, 0, h, h + 1, h + 2, h + 3, 0] {
        b.extend_from_slice(&v.to_le_bytes());
    }
    b.extend_from_slice(&60u32.to_le_bytes());
    b.extend_from_slice(&5u32.to_le_bytes());
    b.extend_from_slice(&8u32.to_le_bytes());
    let mut name = [0u8; 32];
    name[..3].copy_from_slice(b"abc");
    b.extend_from_slice(&name);
    b
}

#[test]
fn mode_from_blob() {
    let blob = DrmPropertyBlob::new(mode_bytes(640, 480));
    assert_eq!(blob.length(), 68);
    let m = DrmDisplayMode::from_blob(&blob).unwrap();
    assert_eq!((m.clock, m.hdisplay, m.htotal, m.vdisplay, m.vtotal, m.flags, m.type_), (12345, 640, 670, 480, 483, 5, 8));
    assert_eq!(&m.name[..4], b"abc\0");
    let short = DrmPropertyBlob::new(vec![0; 67]);
    assert_eq!(DrmDisplayMode::from_blob(&short), Err(DrmError::Invalid));
}

#[test]
fn in_formats_blob_layout() {
    let blob = DrmPropertyBlob::encode_in_formats(&[DrmDisplayFormat::XRGB8888, DrmDisplayFormat::RGB565]);
    let d = blob.data();
    let word = |i: usize| u32::from_le_bytes([d[4 * i], d[4 * i + 1], d[4 * i + 2], d[4 * i + 3]]);
    assert_eq!((word(0), word(1), word(2), word(3), word(4), word(5)), (1, 0, 2, 24, 0, 32));
    assert_eq!(word(6), DrmDisplayFormat::XRGB8888.code());
    assert_eq!(word(7), DrmDisplayFormat::RGB565.code());
    assert_eq!(blob.length(), 32);
}

#[test]
fn format_codes() {
    assert_eq!(fourcc_code(b'X', b'R', b'2', b'4'), 0x3432_5258);
    assert_eq!(DrmDisplayFormat::XRGB8888.code(), 0x3432_5258);
    assert_eq!(DrmDisplayFormat::from_code(0x3432_5258), Some(DrmDisplayFormat::XRGB8888));
    assert_eq!(DrmDisplayFormat::from_code(0), None);
    assert_eq!(DrmDisplayFormat::RGB888.bytes_per_pixel(), Some(3));
    assert_eq!(DrmDisplayFormat::C8.bytes_per_pixel(), Some(1));
    assert_eq!(DrmDisplayFormat::Unknown.bytes_per_pixel(), None);
}

#[test]
fn mode_flags() {
    let f = DrmModeFlag::from_bits_truncate(0xffff_ffff);
    assert_eq!(f.bits(), 0x3fff);
    assert!(f.contains(DrmModeFlag::CLKDIV2()));
    assert!(!DrmModeFlag::from_bits_truncate(1).contains(DrmModeFlag::NHSYNC()));
}

#[test]
fn display_info() {
    let i = DrmDisplayInfo::new(300, 200, SubpixelOrder::HorizontalRgb);
    assert_eq!((i.mm_width(), i.mm_height(), i.subpixel_order()), (300, 200, 1));
    assert_eq!(DrmDisplayInfo::default().subpixel_order(), 0);
    assert_eq!(SubpixelOrder::NoSubpixel.value(), 5);
}

#[test]
fn object_type_numbers() {
    assert_eq!(DrmKmsObjectType::Crtc.value(), 0xCCCC_CCCC);
    assert_eq!(DrmKmsObjectType::try_from_u32(0xEEEE_EEEE), Ok(DrmKmsObjectType::Plane));
    assert_eq!(DrmKmsObjectType::try_from_u32(0), Ok(DrmKmsObjectType::Any));
    assert_eq!(DrmKmsObjectType::try_from_u32(5), Err(DrmError::Invalid));
    assert_eq!(DrmKmsObjectType::try_from(0xFBFB_FBFBu32), Ok(DrmKmsObjectType::Framebuffer));
    assert_eq!(DrmKmsObjectType::try_from(1u32), Err(DrmError::Invalid));
    assert!(ids_contain(&[3, 5, 8], 5));
    assert!(!ids_contain(&[3, 5, 8], 4));
}

#[test]
fn index_masks() {
    assert_eq!(mask_of(&[0, 2, 5]), 0b100101);
    assert_eq!(mask_of(&[]), 0);
    assert!(mask_contains(0b100, 2));
    assert!(!mask_contains(0b100, 1));
    assert!(!mask_contains(u32::MAX, 40));
}

#[test]
fn rectangles() {
    let mut r = RectU32::new(1, 2, 3, 4);
    assert_eq!((r.x(), r.y(), r.width(), r.height()), (1, 2, 3, 4));
    r.set_x(9);
    r.set_height(7);
    assert_eq!((r.x(), r.height()), (9, 7));
}

#[test]
fn effects_merge_without_duplicates() {
    let mut a = DrmAtomicEffect::default();
    a.add_affected_crtc(1);
    a.add_affected_crtc(1);
    a.add_event_crtc(1);
    let mut b = DrmAtomicEffect::default();
    b.set_request_modeset();
    b.add_affected_crtc(2);
    b.add_affected_crtc(1);
    a.merge(b);
    assert!(a.request_modeset());
    assert_eq!(a.affected_crtcs(), &[1, 2][..]);
    assert_eq!(a.event_crtcs(), &[1][..]);
}

#[test]
fn atomic_flag_bits() {
    assert!(DrmAtomicFlags::from_bits(0x0101).is_some());
    assert!(DrmAtomicFlags::from_bits(0x0800).is_none());
    let f = DrmAtomicFlags::from_bits(0x0401).unwrap();
    assert!(f.contains(DrmAtomicFlags::ALLOW_MODESET()));
    assert!(!f.contains(DrmAtomicFlags::TEST_ONLY()));
    assert_eq!(DrmAtomicFlags::empty().bits(), 0);
}

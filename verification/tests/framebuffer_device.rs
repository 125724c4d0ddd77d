use aster_drm::connector::{DrmConnStatus, DrmConnectorSnapshot};
use aster_drm::display::DrmDisplayMode;
use aster_drm::fb_device::{fbdev_next_probe, fbdev_search_step, FbdevCandidate, FbdevSearch};
use aster_drm::back_buffer::{BackBuffer, FbGeometry, SimpleDrm};
use aster_drm::error::{Errno, FbError};
use aster_drm::fb_device::{
    decode_fb_ioctl, drm_backend_cmap, handle_get_cmap, read_len, set_cmap_range, store_cmap, write_len,
    FbBackend, FbBitfield, FbCmapUser, FbIoctlCmd, FbMapHandle, FbMapping,
};
use aster_drm::fbdev::{
    init, ColorMapEntry, FbCmap, FbInit, FrameBuffer, FramebufferArg, PixelFormat, RamFrameBuffer, MAX_CMAP_SIZE,
};

fn entry(v: u16) -> ColorMapEntry {
    ColorMapEntry { red: v, green: v + 1, blue: v + 2, transp: v + 3 }
}

#[test]
fn pixel_format_sizes() {
    assert_eq!(PixelFormat::Grayscale8.nbytes(), 1);
    assert_eq!(PixelFormat::Rgb565.nbytes(), 2);
    assert_eq!(PixelFormat::Rgb888.nbytes(), 3);
    assert_eq!(PixelFormat::BgrReserved.nbytes(), 4);
}

#[test]
fn cmap_set_then_get_returns_entries() {
    let mut c = FbCmap::new();
    let e = vec![entry(10), entry(20), entry(30)];
    assert_eq!(c.set_color_map(5, &e), Ok(()));
    assert_eq!(c.get_color_map(5, 3), Some(e.clone()));
    // the map grew with black entries before the stored range
    assert_eq!(c.get_color_map(0, 1), Some(vec![ColorMapEntry { red: 0, green: 0, blue: 0, transp: 0 }]));
    assert_eq!(c.get_color_map(0, 8).map(|v| v.len()), Some(8));
    assert_eq!(c.get_color_map(0, 9), None);
}

#[test]
fn cmap_set_keeps_other_entries() {
    let mut c = FbCmap::new();
    assert_eq!(c.set_color_map(0, &[entry(1), entry(2), entry(3)]), Ok(()));
    assert_eq!(c.set_color_map(1, &[entry(9)]), Ok(()));
    assert_eq!(c.get_color_map(0, 3), Some(vec![entry(1), entry(9), entry(3)]));
}

#[test]
fn cmap_set_past_maximum_is_invalid() {
    let mut c = FbCmap::new();
    assert_eq!(c.set_color_map(MAX_CMAP_SIZE + 1, &[]), Err(FbError::InvalidArgs));
    assert_eq!(c.set_color_map(255, &[entry(1), entry(2)]), Err(FbError::InvalidArgs));
    assert_eq!(c.get_color_map(0, 0), None);
    assert_eq!(c.set_color_map(255, &[entry(1)]), Ok(()));
    assert_eq!(c.get_color_map(255, 1), Some(vec![entry(1)]));
    assert_eq!(c.get_color_map(256, 0), None);
}

#[test]
fn framebuffer_offsets() {
    let fb = FrameBuffer::new(800, 600, 3200, PixelFormat::BgrReserved, 3200 * 600);
    assert_eq!(fb.pixel_offset(10, 2), 10 * 4 + 2 * 3200);
    let mut o = fb.calc_offset(10, 2);
    assert_eq!(o.as_usize(), 6440);
    o.x_add(-2);
    assert_eq!(o.as_usize(), 6432);
    o.y_add(1);
    assert_eq!(o.as_usize(), 9632);
    assert_eq!(fb.width(), 800);
    assert_eq!(fb.height(), 600);
    assert_eq!(fb.line_size(), 3200);
    assert_eq!(fb.size(), 1_920_000);
}

#[test]
fn framebuffer_color_map() {
    let mut fb = FrameBuffer::new(8, 8, 8, PixelFormat::Grayscale8, 64);
    assert_eq!(fb.get_color_map(0, 1), None);
    assert_eq!(fb.set_color_map(2, &[entry(7)]), Ok(()));
    assert_eq!(fb.get_color_map(2, 1), Some(vec![entry(7)]));
    assert_eq!(fb.set_color_map(300, &[entry(7)]), Err(FbError::InvalidArgs));
}

#[test]
fn ram_framebuffer_defaults() {
    let fb = RamFrameBuffer::new();
    assert_eq!(fb.width(), 1024);
    assert_eq!(fb.height(), 768);
    assert_eq!(fb.line_size(), 4096);
    assert_eq!(fb.pixel_format(), PixelFormat::BgrReserved);
    assert_eq!(fb.size(), 1024 * 768 * 4);
    assert_eq!(fb.pixel_offset(3, 1), 4108);
}

#[test]
fn ram_framebuffer_write_then_read() {
    let mut fb = RamFrameBuffer::new();
    assert_eq!(fb.write_bytes_at(100, &[1, 2, 3]), Ok(()));
    let mut buf = [9u8; 5];
    assert_eq!(fb.read_bytes_at(99, &mut buf), Ok(()));
    assert_eq!(buf, [0, 1, 2, 3, 0]);
}

#[test]
fn ram_framebuffer_cuts_at_end() {
    let mut fb = RamFrameBuffer::new();
    let end = fb.size();
    assert_eq!(fb.write_bytes_at(end - 2, &[5, 6, 7, 8]), Ok(()));
    let mut buf = [9u8; 4];
    assert_eq!(fb.read_bytes_at(end - 2, &mut buf), Ok(()));
    assert_eq!(buf, [5, 6, 0, 0]);
    assert_eq!(fb.write_bytes_at(end, &[1]), Err(FbError::InvalidArgs));
    let mut buf2 = [3u8; 2];
    assert_eq!(fb.read_bytes_at(end, &mut buf2), Err(FbError::InvalidArgs));
    assert_eq!(buf2, [3, 3]);
    fb.clear();
    let mut buf3 = [9u8; 2];
    assert_eq!(fb.read_bytes_at(end - 2, &mut buf3), Ok(()));
    assert_eq!(buf3, [0, 0]);
}

#[test]
fn init_falls_back_to_ram() {
    assert_eq!(init(None), FbInit::RamFallback);
    let a = FramebufferArg { address: 0, width: 640, height: 480, bpp: 32 };
    assert_eq!(init(Some(a)), FbInit::RamFallback);
    let b = FramebufferArg { address: 0x1000, width: 640, height: 480, bpp: 15 };
    assert_eq!(init(Some(b)), FbInit::RamFallback);
}

#[test]
fn init_uses_hardware_framebuffer() {
    let a = FramebufferArg { address: 0xfd00_0000, width: 640, height: 480, bpp: 16 };
    assert_eq!(
        init(Some(a)),
        FbInit::Hardware {
            base: 0xfd00_0000,
            width: 640,
            height: 480,
            line_size: 1280,
            size: 1280 * 480,
            pixel_format: PixelFormat::Rgb565
        }
    );
    let b = FramebufferArg { address: 0x1000, width: 10, height: 2, bpp: 24 };
    assert_eq!(
        init(Some(b)),
        FbInit::Hardware { base: 0x1000, width: 10, height: 2, line_size: 30, size: 60, pixel_format: PixelFormat::Rgb888 }
    );
}

#[test]
fn back_buffer_new_is_black() {
    let b = BackBuffer::new(4, 2, 4, 16);
    assert_eq!(b.data().len(), 32);
    assert!(b.data().iter().all(|&x| x == 0));
    assert_eq!((b.width(), b.height(), b.bpp(), b.line_size()), (4, 2, 4, 16));
}

#[test]
fn back_buffer_clear_fills_whole_pixels() {
    // lines of 7 bytes hold two 3-byte pixels and one spare byte
    let mut b = BackBuffer::new(2, 2, 3, 7);
    b.data_mut()[6] = 0xee;
    b.clear(0x00aa_bbcc);
    assert_eq!(b.data(), &[0xcc, 0xbb, 0xaa, 0xcc, 0xbb, 0xaa, 0xee, 0xcc, 0xbb, 0xaa, 0xcc, 0xbb, 0xaa, 0][..]);
}

#[test]
fn back_buffer_clear_with_one_byte_pixels() {
    let mut b = BackBuffer::new(3, 1, 1, 3);
    b.clear(0x1234_5678);
    assert_eq!(b.data(), &[0x78, 0x78, 0x78][..]);
}

#[test]
fn back_buffer_writes() {
    let mut b = BackBuffer::new(2, 2, 2, 4);
    assert_eq!(b.write_bytes_at(2, &[1, 2, 3]), Ok(()));
    assert_eq!(b.data(), &[0, 0, 1, 2, 3, 0, 0, 0][..]);
    assert_eq!(b.write_pixel_at(6, &[7, 8]), Ok(()));
    assert_eq!(b.data(), &[0, 0, 1, 2, 3, 0, 7, 8][..]);
    assert_eq!(b.write_pixel_at(7, &[7, 8]), Err(FbError::InvalidArgs));
    assert_eq!(b.write_bytes_at(9, &[]), Err(FbError::InvalidArgs));
    assert_eq!(b.data(), &[0, 0, 1, 2, 3, 0, 7, 8][..]);
}

#[test]
fn simple_drm_defaults_without_framebuffer() {
    let d = SimpleDrm::new(None).unwrap();
    assert_eq!(d.width(), 1024);
    assert_eq!(d.height(), 768);
    assert!(d.present().is_none());
}

#[test]
fn simple_drm_presents_back_buffer() {
    let g = FbGeometry { width: 2, height: 1, bpp: 2, line_size: 4 };
    let mut d = SimpleDrm::new(Some(g)).unwrap();
    assert_eq!(d.width(), 2);
    assert_eq!(d.back_buffer().write_bytes_at(0, &[1, 2, 3, 4]), Ok(()));
    assert_eq!(d.present(), Some(&[1u8, 2, 3, 4][..]));
}

fn legacy() -> FbBackend {
    FbBackend::Legacy { width: 800, height: 600, line_size: 3200, pixel_format: PixelFormat::BgrReserved, paddr: 0x8000_0000, size: 1_920_000 }
}

fn drm() -> FbBackend {
    FbBackend::Drm { fb_id: 7, width: 1024, height: 768, width_mm: 300, height_mm: 200, pitch_bytes: 4096, size_bytes: 3_145_728 }
}

#[test]
fn bitfields_of_formats() {
    let (r, g, b, t) = FbBitfield::from_pixel_format(PixelFormat::Rgb565);
    assert_eq!((r.offset, r.length, g.offset, g.length, b.offset, b.length), (11, 5, 5, 6, 0, 5));
    assert_eq!((t.offset, t.length), (0, 0));
    let (_, _, _, t) = FbBitfield::from_pixel_format(PixelFormat::BgrReserved);
    assert_eq!((t.offset, t.length, t.msb_right), (24, 8, 0));
}

#[test]
fn var_screen_info_of_backends() {
    let v = legacy().collect_var_screen_info();
    assert_eq!((v.xres, v.yres, v.xres_virtual, v.yres_virtual), (800, 600, 800, 600));
    assert_eq!(v.bits_per_pixel, 32);
    assert_eq!(v.pixclock, 10_000_000 / 800 * 1000 / 600);
    assert_eq!(v.left_margin, (800 / 8) & 0xf8);
    assert_eq!(v.hsync_len, 96);
    assert_eq!((v.right_margin, v.upper_margin, v.lower_margin, v.vsync_len), (32, 16, 4, 4));
    assert_eq!((v.width, v.height), (0, 0));
    let d = drm().collect_var_screen_info();
    assert_eq!((d.width, d.height, d.bits_per_pixel), (300, 200, 32));
    assert_eq!(d.pixclock, 10_000_000 / 1024 * 1000 / 768);
}

#[test]
fn fix_screen_info_of_backends() {
    let f = legacy().collect_fix_screen_info();
    assert_eq!(&f.id[..7], b"asterfb");
    assert_eq!((f.smem_start, f.smem_len, f.line_length, f.visual), (0x8000_0000, 1_920_000, 3200, 2));
    let d = drm().collect_fix_screen_info();
    assert_eq!(&d.id[..6], b"drmfb\0");
    assert_eq!((d.smem_start, d.smem_len, d.line_length), (0, 3_145_728, 4096));
}

#[test]
fn mode_change_must_keep_current_mode() {
    let b = legacy();
    let cur = b.collect_var_screen_info();
    assert_eq!(b.validate_var_screen_info(&cur), Ok(()));
    let mut other = cur;
    other.xres = 640;
    assert_eq!(b.validate_var_screen_info(&other), Err(Errno::EINVAL));
    let mut panned = cur;
    panned.yoffset = 8;
    assert_eq!(b.validate_pan_display(&panned), Err(Errno::EINVAL));
    let mut grey = cur;
    grey.grayscale = 1;
    assert_eq!(b.validate_var_screen_info(&grey), Err(Errno::EINVAL));
    assert_eq!(b.validate_pan_display(&grey), Ok(()));
}

fn cmap_user(start: u32, len: u32, transp: usize) -> FbCmapUser {
    FbCmapUser { start, len, red: 0x1000, green: 0x2000, blue: 0x3000, transp }
}

#[test]
fn cmap_requests() {
    let mut c = drm_backend_cmap();
    assert_eq!(set_cmap_range(&cmap_user(0, 0, 0)), Ok(None));
    assert_eq!(set_cmap_range(&cmap_user(250, 7, 0)), Err(Errno::EINVAL));
    assert_eq!(set_cmap_range(&cmap_user(250, 6, 0)), Ok(Some((250, 6))));
    store_cmap(&mut c, 1, &[1, 2], &[3, 4], &[5, 6], &[0, 0]);
    let got = handle_get_cmap(&c, &cmap_user(1, 2, 0x4000)).ok().unwrap();
    assert_eq!(got.red, vec![1, 2]);
    assert_eq!(got.green, vec![3, 4]);
    assert_eq!(got.blue, vec![5, 6]);
    assert_eq!(got.transp, Some(vec![0, 0]));
    let no_transp = handle_get_cmap(&c, &cmap_user(0, 1, 0)).ok().unwrap();
    assert_eq!(no_transp.transp, None);
    assert_eq!(handle_get_cmap(&c, &cmap_user(255, 2, 0)).err(), Some(Errno::EINVAL));
    let empty = handle_get_cmap(&c, &cmap_user(300, 0, 0)).ok().unwrap();
    assert!(empty.red.is_empty());
}

#[test]
fn read_and_write_lengths() {
    assert_eq!(read_len(10, 0, 100), 0);
    assert_eq!(read_len(100, 5, 100), 0);
    assert_eq!(read_len(90, 20, 100), 10);
    assert_eq!(read_len(10, 20, 100), 20);
    assert_eq!(write_len(10, 0, 100), Ok(0));
    assert_eq!(write_len(100, 1, 100), Err(Errno::ENOSPC));
    assert_eq!(write_len(95, 10, 100), Ok(5));
}

#[test]
fn mappings() {
    assert_eq!(drm().map(4096), Ok(FbMapping::OnDemand(FbMapHandle::Drm { fb_id: 7, object_offset: 4096 })));
    assert_eq!(drm().map(100), Err(Errno::EINVAL));
    assert_eq!(legacy().map(4096), Ok(FbMapping::DeviceMemory { start: 4096, end: 1_920_000 }));
    assert_eq!(legacy().map(2_000_000), Ok(FbMapping::Empty));
    let h = FbMapHandle::Drm { fb_id: 7, object_offset: 4096 };
    assert_eq!(h.dup(), h);
    assert_eq!(h.split_at(8192).1, FbMapHandle::Drm { fb_id: 7, object_offset: 12288 });
    assert_eq!(FbMapHandle::Drm { fb_id: 1, object_offset: usize::MAX - 1 }.split_at(5).1, FbMapHandle::Drm { fb_id: 1, object_offset: usize::MAX });
    assert_eq!(h.fault_offset(4096), Ok(8192));
    assert_eq!(h.fault_offset(1), Err(Errno::EINVAL));
    assert_eq!(FbMapHandle::Drm { fb_id: 1, object_offset: usize::MAX }.fault_offset(1), Err(Errno::EOVERFLOW));
    assert_eq!(FbMapHandle::Legacy.fault_offset(0), Err(Errno::EFAULT));
}

#[test]
fn ioctl_requests() {
    assert_eq!(decode_fb_ioctl(0x4600), Ok(FbIoctlCmd::GetVarScreenInfo));
    assert_eq!(decode_fb_ioctl(0x4605), Ok(FbIoctlCmd::PutColorMap));
    assert_eq!(decode_fb_ioctl(0x4611), Ok(FbIoctlCmd::Blank));
    assert_eq!(decode_fb_ioctl(0x4603), Err(Errno::ENOTTY));
    assert_eq!(drm().blank(), Ok(0));
    assert_eq!(legacy().blank(), Err(Errno::EINVAL));
    assert!(drm().is_drm());
    assert!(!legacy().is_drm());
}

#[test]
fn fbdev_search_probes_in_order() {
    let devs = vec![
        FbdevCandidate { usable: false, crtc_ids: vec![1], connector_ids: vec![5] },
        FbdevCandidate { usable: true, crtc_ids: vec![], connector_ids: vec![6] },
        FbdevCandidate { usable: true, crtc_ids: vec![7, 8], connector_ids: vec![9, 10] },
    ];
    assert_eq!(fbdev_next_probe(&devs, 0, 0), Some((2, 0)));
    assert_eq!(fbdev_next_probe(&devs, 2, 2), None);
    let gone = DrmConnectorSnapshot {
        status: DrmConnStatus::Disconnected,
        display_modes: vec![],
        mm_width: 0,
        mm_height: 0,
        subpixel: 0,
        encoder_id: None,
    };
    assert!(matches!(fbdev_search_step(&devs, 2, 0, Some(&gone)), FbdevSearch::Probe { device: 2, connector: 1 }));
    let mode = DrmDisplayMode::new(800, 600, 60);
    let here = DrmConnectorSnapshot {
        status: DrmConnStatus::Connected,
        display_modes: vec![mode],
        mm_width: 300,
        mm_height: 200,
        subpixel: 0,
        encoder_id: None,
    };
    match fbdev_search_step(&devs, 2, 1, Some(&here)) {
        FbdevSearch::Found { device, target } => {
            assert_eq!((device, target.crtc_id, target.connector_id, target.width_mm), (2, 7, 10, 300));
        },
        _ => panic!("expected a scanout"),
    }
    assert!(matches!(fbdev_search_step(&devs, 2, 1, None), FbdevSearch::NotFound));
}

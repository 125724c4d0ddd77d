use aster_drm::dumb::{
    handle_create_dumb, handle_destroy_dumb, handle_map_dumb, DumbBuffer, DumbBufferManager, IdAllocator,
};
use aster_drm::error::{DrmError, Errno, Error};
use aster_drm::fb_manager::{blit_rows, bytes_per_pixel, checked_row_bytes, FbManager, PresentLayout, VisibleFb};
use aster_drm::file_events::{DrmFileEvents, POLL_IN, POLL_OUT};
use aster_drm::gem_shmem::{commit_error, DrmGemShmemObject};
use aster_drm::ioctl_defs::{DrmModeCreateDumb, DrmModeDestroyDumb, DrmModeFbCmd, DrmModeGetFb, DrmModeMapDumb, DrmModeRmFb};
use aster_drm::registry::DrmDeviceRegistry;
use aster_drm::rmap::{unmap_range, Rmap, RmapEntry};
use aster_drm::virtio_gpu::{
    negotiate_features, VirtioGpuCmdAttachBacking, VirtioGpuCmdFlush, VirtioGpuCmdResourceCreate2D,
    VirtioGpuCmdSetScanout, VirtioGpuCmdTransferToHost2D, VIRTIO_GPU_CMD_FLUSH, VIRTIO_GPU_CMD_RESOURCE_CREATE_2D,
    VIRTIO_GPU_FORMAT_B8G8R8X8,
};
use aster_drm::vt_graphics::{ConsoleGraphicsOwner, ConsoleGraphicsOwners, ConsoleMode, VtIndex};

#[test]
fn dumb_buffer_pitch_rounds_up_to_four() {
    let b = DumbBuffer::new(3, 2, 8);
    assert_eq!(b.pitch(), 4);
    assert_eq!(b.size(), 8);
    assert_eq!(b.data().len(), 8);
    let c = DumbBuffer::new(5, 1, 24);
    assert_eq!(c.pitch(), 16);
}

#[test]
fn dumb_buffer_data_mut_writes_through() {
    let mut b = DumbBuffer::new(1, 1, 32);
    b.data_mut()[2] = 9;
    assert_eq!(b.data(), &[0, 0, 9, 0][..]);
}

#[test]
fn id_allocator_reuses_latest_released() {
    let mut a = IdAllocator::new();
    assert_eq!(a.allocate(), 1);
    assert_eq!(a.allocate(), 2);
    assert_eq!(a.allocate(), 3);
    a.release(1);
    a.release(3);
    a.release(10);
    assert_eq!(a.allocate(), 3);
    assert_eq!(a.allocate(), 1);
    assert_eq!(a.allocate(), 4);
}

#[test]
fn id_allocator_ignores_second_release() {
    let mut a = IdAllocator::new();
    let x = a.allocate();
    a.release(x);
    a.release(x);
    assert_eq!(a.allocate(), 1);
    assert_eq!(a.allocate(), 2);
}

#[test]
fn dumb_handles_stay_unique_after_destroy() {
    let mut m = DumbBufferManager::new();
    let (h1, _, _, _) = m.create_dumb(1, 1, 8).unwrap();
    let (h2, _, _, _) = m.create_dumb(1, 1, 8).unwrap();
    assert_eq!(m.destroy_dumb(h1), Ok(()));
    assert_eq!(m.destroy_dumb(h1), Err(Errno::ENOENT));
    let (h3, _, _, _) = m.create_dumb(1, 1, 8).unwrap();
    let (h4, _, _, _) = m.create_dumb(1, 1, 8).unwrap();
    assert_eq!((h1, h2, h3, h4), (1, 2, 1, 3));
}

#[test]
fn dumb_manager_create_map_destroy() {
    let mut m = DumbBufferManager::new();
    let (h, pitch, offset, size) = m.create_dumb(640, 480, 32).unwrap();
    assert_eq!((h, pitch, offset, size), (1, 2560, 0, 2560 * 480));
    let (h2, _, offset2, _) = m.create_dumb(4, 4, 8).unwrap();
    assert_eq!((h2, offset2), (2, 64 * 1024 * 1024));
    assert_eq!(m.get_offset(2), Ok(64 * 1024 * 1024));
    assert_eq!(m.get_offset(3), Err(Errno::ENOENT));
    assert_eq!(m.destroy_dumb(1), Ok(()));
    assert_eq!(m.destroy_dumb(1), Err(Errno::ENOENT));
    // the destroyed handle is the next one handed out
    let (h3, _, _, _) = m.create_dumb(1, 1, 8).unwrap();
    assert_eq!(h3, 1);
}

#[test]
fn dumb_manager_rejects_bad_geometry() {
    let mut m = DumbBufferManager::new();
    assert_eq!(m.create_dumb(0, 10, 32), Err(Errno::EINVAL));
    assert_eq!(m.create_dumb(10, 0, 32), Err(Errno::EINVAL));
    assert_eq!(m.create_dumb(10, 10, 0), Err(Errno::EINVAL));
    // a buffer must fit its 64 MiB slot
    assert_eq!(m.create_dumb(4097, 4096, 32), Err(Errno::EINVAL));
    assert_eq!(m.create_dumb(4096, 4097, 32), Err(Errno::EINVAL));
    assert_eq!(m.create_dumb(4096, 4096, 32), Ok((1, 16384, 0, 67108864)));
}

#[test]
fn dumb_manager_write_data_cuts_at_end() {
    let mut m = DumbBufferManager::new();
    let (h, _, _, size) = m.create_dumb(2, 1, 8).unwrap();
    assert_eq!(size, 4);
    assert_eq!(m.write_data(h, 2, &[7, 8, 9]), Ok((2, 2)));
    let s = m.snapshot(h).ok().unwrap();
    assert_eq!(s.data, vec![0, 0, 7, 8]);
    assert_eq!(m.write_data(h, 4, &[1]), Err(Errno::EINVAL));
    assert_eq!(m.write_data(9, 0, &[1]), Err(Errno::ENOENT));
}

#[test]
fn dumb_ioctls_of_simple_path() {
    let mut m = DumbBufferManager::new();
    let args = DrmModeCreateDumb { height: 2, width: 3, bpp: 32, flags: 0, handle: 0, pitch: 0, size: 0 };
    let r = handle_create_dumb(&mut m, args).unwrap();
    assert_eq!((r.handle, r.pitch, r.size, r.width, r.height), (1, 12, 24, 3, 2));
    let bad = DrmModeCreateDumb { bpp: 0, ..args };
    assert_eq!(handle_create_dumb(&mut m, bad), Err(Errno::EINVAL));
    let map = handle_map_dumb(&m, DrmModeMapDumb { handle: 1, pad: 0, offset: 0 }).unwrap();
    assert_eq!(map.offset, 0);
    assert_eq!(handle_map_dumb(&m, DrmModeMapDumb { handle: 5, pad: 0, offset: 0 }), Err(Errno::ENOENT));
    assert_eq!(handle_destroy_dumb(&mut m, DrmModeDestroyDumb { handle: 1 }), Ok(()));
    assert_eq!(handle_destroy_dumb(&mut m, DrmModeDestroyDumb { handle: 1 }), Err(Errno::ENOENT));
}

#[test]
fn fb_manager_add_get_remove() {
    let mut fbs = FbManager::new();
    let id = fbs.add_fb(3, 640, 480, 32).unwrap();
    assert_eq!(id, 1);
    assert_eq!(fbs.add_fb(4, 10, 10, 16), Ok(2));
    let fb = fbs.get_fb(1).unwrap();
    assert_eq!((fb.fb_id, fb.handle, fb.width, fb.height, fb.bpp), (1, 3, 640, 480, 32));
    assert!(fbs.fb_exists(2));
    assert_eq!(fbs.fb_count(), 2);
    assert_eq!(fbs.all_fb_ids(), vec![1, 2]);
    assert_eq!(fbs.remove_fb(1), Ok(()));
    assert!(fbs.get_fb(1).is_none());
    assert_eq!(fbs.remove_fb(1), Err(Errno::ENOENT));
    assert_eq!(fbs.handle_rm_fb(DrmModeRmFb { fb_id: 2 }), Ok(()));
    assert_eq!(fbs.fb_count(), 0);
    fbs.set_current_fb(Some(2));
    assert_eq!(fbs.current_fb_id(), Some(2));
}

#[test]
fn fb_manager_ioctls_need_dumb_buffer() {
    let mut dumbs = DumbBufferManager::new();
    let (h, _, _, _) = dumbs.create_dumb(4, 2, 32).unwrap();
    let mut fbs = FbManager::new();
    let args = DrmModeFbCmd { fb_id: 0, width: 4, height: 2, pitch: 16, bpp: 32, depth: 24, handle: h };
    let r = fbs.handle_add_fb(&dumbs, args).unwrap();
    assert_eq!(r.fb_id, 1);
    let missing = DrmModeFbCmd { handle: 42, ..args };
    assert_eq!(fbs.handle_add_fb(&dumbs, missing), Err(Errno::ENOENT));
    let g = fbs.handle_get_fb(&dumbs, DrmModeGetFb { fb_id: 1, ..Default::default() }).unwrap();
    assert_eq!((g.width, g.height, g.bpp, g.pitch, g.handle, g.offset), (4, 2, 32, 16, h, 0));
    assert!(fbs.handle_get_fb(&dumbs, DrmModeGetFb { fb_id: 9, ..Default::default() }).is_err());
}

#[test]
fn present_plan_and_rows() {
    let mut dumbs = DumbBufferManager::new();
    let (h, _, _, _) = dumbs.create_dumb(2, 2, 32).unwrap();
    let mut fbs = FbManager::new();
    let id = fbs.add_fb(h, 2, 2, 32).unwrap();
    let visible = VisibleFb { width: 2, height: 2, bytes_per_pixel: 4, line_size: 16, size: 32 };
    let (snap, layout) = fbs.present_plan(&dumbs, id, Some(visible)).ok().unwrap();
    assert_eq!(snap.pitch, 8);
    assert_eq!(layout, PresentLayout { height: 2, row_bytes: 8, src_pitch: 8, dst_pitch: 16 });
    let (rows, complete) = blit_rows(&layout);
    assert!(complete);
    assert_eq!(rows, vec![(0, 8, 0), (8, 16, 16)]);
    assert_eq!(fbs.present_plan(&dumbs, id, None).err(), Some(Errno::ENODEV));
    let small = VisibleFb { size: 20, ..visible };
    assert_eq!(fbs.present_plan(&dumbs, id, Some(small)).err(), Some(Errno::EINVAL));
    assert_eq!(fbs.present_plan(&dumbs, 9, Some(visible)).err(), Some(Errno::ENOENT));
}

#[test]
fn pixel_bytes_and_rows() {
    assert_eq!(bytes_per_pixel(32), Ok(4));
    assert_eq!(bytes_per_pixel(12), Err(Errno::EINVAL));
    assert_eq!(bytes_per_pixel(0), Err(Errno::EINVAL));
    assert_eq!(checked_row_bytes(100, 3), Ok(300));
    assert_eq!(checked_row_bytes(u32::MAX, usize::MAX), Err(Errno::EINVAL));
}

#[test]
fn registry_register_and_unregister() {
    let mut r = DrmDeviceRegistry::new();
    assert_eq!(r.register_drm_device(7), Ok(()));
    assert_eq!(r.register_drm_device(9), Ok(()));
    assert_eq!(r.registered_drm_devices(), vec![7, 9]);
    assert_eq!(r.unregister_drm_device(7), Ok(7));
    assert_eq!(r.registered_drm_devices(), vec![9]);
    assert_eq!(r.unregister_drm_device(7), Err(Error::NotFound));
}

#[test]
fn graphics_owners_switch_modes() {
    let mut o = ConsoleGraphicsOwners::new();
    assert!(o.is_empty());
    assert_eq!(o.enter_graphics_mode(ConsoleGraphicsOwner::DrmFile(1)), Some(ConsoleMode::Graphics));
    assert_eq!(o.enter_graphics_mode(ConsoleGraphicsOwner::UserVt), None);
    assert_eq!(o.enter_graphics_mode(ConsoleGraphicsOwner::UserVt), None);
    assert_eq!(o.leave_graphics_mode(ConsoleGraphicsOwner::Fbdev(1)), None);
    assert_eq!(o.leave_graphics_mode(ConsoleGraphicsOwner::UserVt), None);
    assert_eq!(o.leave_graphics_mode(ConsoleGraphicsOwner::DrmFile(1)), Some(ConsoleMode::Text));
    assert!(o.is_empty());
}

#[test]
fn graphics_owners_roll_back_failed_switches() {
    let mut o = ConsoleGraphicsOwners::new();
    assert_eq!(o.enter_graphics_mode(ConsoleGraphicsOwner::Fbdev(2)), Some(ConsoleMode::Graphics));
    o.enter_failed(ConsoleGraphicsOwner::Fbdev(2));
    assert!(o.is_empty());
    assert_eq!(o.enter_graphics_mode(ConsoleGraphicsOwner::Fbdev(2)), Some(ConsoleMode::Graphics));
    assert_eq!(o.leave_graphics_mode(ConsoleGraphicsOwner::Fbdev(2)), Some(ConsoleMode::Text));
    o.leave_failed(ConsoleGraphicsOwner::Fbdev(2));
    assert!(!o.is_empty());
}

#[test]
fn vt_index_range() {
    assert!(VtIndex::new(0).is_none());
    assert!(VtIndex::new(1).is_some());
    assert!(VtIndex::new(63).is_some());
    assert!(VtIndex::new(64).is_none());
}

#[test]
fn rmap_unmap_ranges() {
    let e = RmapEntry { vaddr: 0x10000, offset: 0x2000, size: 0x3000 };
    assert_eq!(unmap_range(&e, 0x3000, 0x4000), Some((0x11000, 0x12000)));
    assert_eq!(unmap_range(&e, 0, 0x10000), Some((0x10000, 0x13000)));
    assert_eq!(unmap_range(&e, 0x5000, 0x6000), None);
    let mut r = Rmap::new();
    r.insert(1, e);
    r.insert(2, RmapEntry { vaddr: 0x40000, offset: 0, size: 0x1000 });
    let out = r.unmap(0, 0x3000, &vec![1]);
    assert_eq!(out, vec![(1, 0x10000, 0x11000)]);
    // space 2 is gone: its mappings are forgotten
    assert_eq!(r.unmap(0, 0x10000, &vec![1, 2]), vec![(1, 0x10000, 0x13000)]);
    r.remove(1, 0x10000);
    assert_eq!(r.unmap(0, 0x10000, &vec![1, 2]), vec![]);
}

#[test]
fn file_events_read_in_order() {
    let mut q = DrmFileEvents::new();
    assert_eq!(q.poll(POLL_IN | POLL_OUT), POLL_OUT);
    assert_eq!(q.read_check(true), Err(Errno::EAGAIN));
    assert_eq!(q.read_check(false), Ok(()));
    q.push(vec![1; 32]);
    q.push(vec![2; 32]);
    assert_eq!(q.poll(POLL_IN), POLL_IN);
    assert_eq!(q.pop_fitting(16, 0), Err(Errno::EINVAL));
    assert_eq!(q.pop_fitting(48, 0), Ok(Some(vec![1; 32])));
    assert_eq!(q.pop_fitting(16, 32), Ok(None));
    assert_eq!(q.pop_fitting(32, 32), Ok(Some(vec![2; 32])));
    assert_eq!(q.pop_fitting(100, 64), Ok(None));
    assert!(q.is_empty());
}

#[test]
fn shmem_page_faults() {
    let o = DrmGemShmemObject::new(5000, 64);
    assert_eq!((o.size(), o.pitch()), (5000, 64));
    assert_eq!(o.map_page(0), Ok(0));
    assert_eq!(o.map_page(4096), Ok(1));
    assert_eq!(o.map_page(8192), Err(DrmError::Invalid));
    assert_eq!(o.map_page(100), Err(DrmError::Invalid));
    let huge = DrmGemShmemObject::new(usize::MAX, 0);
    assert_eq!(huge.map_page(0), Err(DrmError::NoMemory));
    assert_eq!(commit_error(Errno::EINVAL), DrmError::Invalid);
    assert_eq!(commit_error(Errno::EIO), DrmError::Busy);
    assert_eq!(commit_error(Errno::EBUSY), DrmError::Busy);
    assert_eq!(commit_error(Errno::EFAULT), DrmError::NoMemory);
}

#[test]
fn virtio_commands() {
    let c = VirtioGpuCmdResourceCreate2D::new(5, 640, 480, VIRTIO_GPU_FORMAT_B8G8R8X8);
    assert_eq!((c.hdr.type_, c.hdr.flags, c.resource_id, c.width, c.height, c.format, c.flags), (VIRTIO_GPU_CMD_RESOURCE_CREATE_2D, 0, 5, 640, 480, 1, 0));
    let f = VirtioGpuCmdFlush::new(5, 1, 2, 3, 4);
    assert_eq!((f.hdr.type_, f.x, f.y, f.width, f.height), (VIRTIO_GPU_CMD_FLUSH, 1, 2, 3, 4));
    let s = VirtioGpuCmdSetScanout::new(0, 5, 0, 0, 640, 480);
    assert_eq!((s.hdr.type_, s.scanout_id, s.resource_id), (0x0103, 0, 5));
    let t = VirtioGpuCmdTransferToHost2D::new(5, 4096, 0, 1, 2, 3);
    assert_eq!((t.hdr.type_, t.offset, t.height), (0x0105, 4096, 3));
    let a = VirtioGpuCmdAttachBacking::new(5, 2);
    assert_eq!((a.hdr.type_, a.nr_entries), (0x0106, 2));
    assert_eq!(negotiate_features(0xff), 1);
    assert_eq!(negotiate_features(0xfe), 0);
}

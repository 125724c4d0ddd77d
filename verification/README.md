# aster_drm

A verified library for the display stack of a small kernel: the DRM kernel
mode-setting (KMS) object model, atomic updates, the DRM file ioctls'
decisions, dumb and GEM buffers, the mmap offset space, and the framebuffer
console device (fbdev). Each function states its behaviour in `requires` /
`ensures` over mathematical models (`Seq`, `Map`, `Set`, spec functions) and
Verus proves the code against that statement.

## Layout

- `src/` is the verified library, one module per concern:
  - KMS objects and their store: `object_type`, `property`, `props`, `blob`,
    `plane`, `crtc`, `encoder`, `connector`, `display`, `geometry`, `mask`,
    `store`, `builder`, `ordered_map`.
  - Atomic updates: `atomic`, `effect`, `pending_tables`, `plane_update`,
    `crtc_update`, `connector_update`, `vblank`.
  - The DRM file: `drm_file` (capabilities, master rules, version),
    `file_objects` (GEM handles, framebuffers, blobs, release),
    `file_events`, `kms_ioctl` (the replies of the mode ioctls),
    `ioctl_defs`, `ioctl_types`, `error`.
  - Buffers and mappings: `dumb`, `fb_manager`, `gem_shmem`,
    `vma_manager`, `rmap`.
  - Devices: `simpledrm`, `simple_kms`, `virtio_gpu`, `registry`.
  - Framebuffer console: `fbdev`, `fb_device`, `back_buffer`,
    `vt_graphics`.
  Laws that relate several calls are public proof functions named `law_*`.
- `tests/` runs the library on concrete values.
- `app/` is the unverified shell around it: locking, user-memory copies,
  device access and the loops that hand events to the library.

The one outside crate the library calls is `hashbrown`, for the maps of the
object store, the property tables and the GEM handle table; each call goes
through a small trusted wrapper whose contract states what the map does.

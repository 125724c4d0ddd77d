//! Verified core of a DRM/KMS display subsystem.
#![allow(unused_imports)]

use vstd::prelude::*;

pub mod back_buffer;
pub mod blob;
pub mod builder;
pub mod connector;
pub mod connector_update;
pub mod crtc;
pub mod crtc_update;
pub mod display;
pub mod drm_file;
pub mod dumb;
pub mod effect;
pub mod atomic;
pub mod encoder;
pub mod error;
pub mod fb_device;
pub mod fb_manager;
pub mod fbdev;
pub mod file_events;
pub mod file_objects;
pub mod framebuffer;
pub mod gem_shmem;
pub mod geometry;
pub mod kms_ioctl;
pub mod ioctl_defs;
pub mod ioctl_types;
pub mod mask;
pub mod object_type;
pub mod ordered_map;
pub mod pending_tables;
pub mod plane;
pub mod plane_update;
pub mod property;
pub mod props;
pub mod registry;
pub mod rmap;
pub mod simple_kms;
pub mod simpledrm;
pub mod store;
pub mod vblank;
pub mod virtio_gpu;
pub mod vt_graphics;
pub mod vma_manager;

verus! {

} // verus!

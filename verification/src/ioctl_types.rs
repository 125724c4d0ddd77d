//! The arguments of the mode-setting ioctls of an open DRM file, field for
//! field as userspace passes them.
use vstd::prelude::*;

use crate::display::{DrmDisplayFormat, DrmModeModeInfo};
use crate::property::DRM_PROP_NAME_LEN;

verus! {

/// `DRM_IOCTL_GET_CAP`.
#[derive(Debug, Clone, Copy, PartialEq, Eq, Structural)]
pub struct DrmGetCap {
    pub capability: u64,
    pub value: u64,
}

/// `DRM_IOCTL_SET_CLIENT_CAP`.
#[derive(Debug, Clone, Copy, PartialEq, Eq, Structural)]
pub struct DrmSetClientCap {
    pub capability: u64,
    pub value: u64,
}

/// `DRM_IOCTL_MODE_GETRESOURCES`.
#[derive(Debug, Clone, Copy, PartialEq, Eq, Structural)]
pub struct DrmModeGetResources {
    pub fb_id_ptr: u64,
    pub crtc_id_ptr: u64,
    pub connector_id_ptr: u64,
    pub encoder_id_ptr: u64,
    pub count_fbs: u32,
    pub count_crtcs: u32,
    pub count_connectors: u32,
    pub count_encoders: u32,
    pub min_width: u32,
    pub max_width: u32,
    pub min_height: u32,
    pub max_height: u32,
}

/// `DRM_IOCTL_MODE_GETCRTC` and `DRM_IOCTL_MODE_SETCRTC`.
#[derive(Debug, Clone, Copy)]
pub struct DrmModeCrtc {
    pub set_connectors_ptr: u64,
    pub count_connectors: u32,
    pub crtc_id: u32,
    pub fb_id: u32,
    pub x: u32,
    pub y: u32,
    pub gamma_size: u32,
    pub mode_valid: u32,
    pub mode: DrmModeModeInfo,
}

/// `DRM_IOCTL_MODE_GETENCODER`.
#[derive(Debug, Clone, Copy, PartialEq, Eq, Structural)]
pub struct DrmModeGetEncoder {
    pub encoder_id: u32,
    pub encoder_type: u32,
    pub crtc_id: u32,
    pub possible_crtcs: u32,
    pub possible_clones: u32,
}

/// `DRM_IOCTL_MODE_GETCONNECTOR`.
#[derive(Debug, Clone, Copy, PartialEq, Eq, Structural)]
pub struct DrmModeGetConnector {
    pub encoders_ptr: u64,
    pub modes_ptr: u64,
    pub props_ptr: u64,
    pub prop_values_ptr: u64,
    pub count_modes: u32,
    pub count_props: u32,
    pub count_encoders: u32,
    pub encoder_id: u32,
    pub connector_id: u32,
    pub connector_type: u32,
    pub connector_type_id: u32,
    pub connection: u32,
    pub mm_width: u32,
    pub mm_height: u32,
    pub subpixel: u32,
    pub pad: u32,
}

/// `DRM_IOCTL_MODE_GETPROPERTY`.
#[derive(Debug, Clone, Copy)]
pub struct DrmModeGetProperty {
    pub values_ptr: u64,
    pub enum_blob_ptr: u64,
    pub prop_id: u32,
    pub flags: u32,
    pub name: [u8; DRM_PROP_NAME_LEN],
    pub count_values: u32,
    pub count_enum_blobs: u32,
}

/// `DRM_IOCTL_MODE_GETPROPBLOB`.
#[derive(Debug, Clone, Copy, PartialEq, Eq, Structural)]
pub struct DrmModeGetBlob {
    pub blob_id: u32,
    pub length: u32,
    pub data: u64,
}

/// `DRM_IOCTL_MODE_ADDFB`.
#[derive(Debug, Clone, Copy, PartialEq, Eq, Structural)]
pub struct DrmModeFbCmd {
    pub fb_id: u32,
    pub width: u32,
    pub height: u32,
    pub pitch: u32,
    pub bpp: u32,
    pub depth: u32,
    pub handle: u32,
}

/// `DRM_IOCTL_MODE_CREATE_DUMB`.
#[derive(Debug, Clone, Copy, PartialEq, Eq, Structural)]
pub struct DrmModeCreateDumb {
    pub height: u32,
    pub width: u32,
    pub bpp: u32,
    pub flags: u32,
    pub handle: u32,
    pub pitch: u32,
    pub size: u64,
}

/// `DRM_IOCTL_MODE_MAP_DUMB`.
#[derive(Debug, Clone, Copy, PartialEq, Eq, Structural)]
pub struct DrmModeMapDumb {
    pub handle: u32,
    pub pad: u32,
    pub offset: u64,
}

/// `DRM_IOCTL_MODE_DESTROY_DUMB`.
#[derive(Debug, Clone, Copy, PartialEq, Eq, Structural)]
pub struct DrmModeDestroyDumb {
    pub handle: u32,
}

/// `DRM_IOCTL_MODE_GETPLANERESOURCES`.
#[derive(Debug, Clone, Copy, PartialEq, Eq, Structural)]
pub struct DrmModeGetPlaneRes {
    pub plane_id_ptr: u64,
    pub count_planes: u32,
}

/// `DRM_IOCTL_MODE_GETPLANE`.
#[derive(Debug, Clone, Copy, PartialEq, Eq, Structural)]
pub struct DrmModeGetPlane {
    pub plane_id: u32,
    pub crtc_id: u32,
    pub fb_id: u32,
    pub possible_crtcs: u32,
    pub gamma_size: u32,
    pub count_format_types: u32,
    pub format_type_ptr: u64,
}

/// `DRM_IOCTL_MODE_ADDFB2`.
#[derive(Debug, Clone, Copy)]
pub struct DrmModeFbCmd2 {
    pub fb_id: u32,
    pub width: u32,
    pub height: u32,
    pub pixel_format: u32,
    pub flags: u32,
    pub handles: [u32; 4],
    pub pitches: [u32; 4],
    pub offsets: [u32; 4],
    pub modifier: [u64; 4],
}

/// `DRM_IOCTL_MODE_OBJ_GETPROPERTIES`.
#[derive(Debug, Clone, Copy, PartialEq, Eq, Structural)]
pub struct DrmModeObjectGetProps {
    pub props_ptr: u64,
    pub prop_values_ptr: u64,
    pub count_props: u32,
    pub obj_id: u32,
    pub obj_type: u32,
}

/// `DRM_IOCTL_MODE_CREATEPROPBLOB`.
#[derive(Debug, Clone, Copy, PartialEq, Eq, Structural)]
pub struct DrmModeCreateBlob {
    pub data: u64,
    pub length: u32,
    pub blob_id: u32,
}

/// `DRM_IOCTL_MODE_DESTROYPROPBLOB`.
#[derive(Debug, Clone, Copy, PartialEq, Eq, Structural)]
pub struct DrmModeDestroyBlob {
    pub blob_id: u32,
}

/// `DRM_IOCTL_MODE_ATOMIC`.
#[derive(Debug, Clone, Copy, PartialEq, Eq, Structural)]
pub struct DrmModeAtomic {
    pub flags: u32,
    pub count_objs: u32,
    pub objs_ptr: u64,
    pub count_props_ptr: u64,
    pub props_ptr: u64,
    pub prop_values_ptr: u64,
    pub reserved: u64,
    pub user_data: u64,
}

/// The pixel format that the legacy depth and bits per pixel of
/// `DRM_IOCTL_MODE_ADDFB` stand for; the unknown format for other pairs.
pub open spec fn legacy_format_spec(bpp: u32, depth: u32) -> DrmDisplayFormat {
    if bpp == 8 && depth == 8 {
        DrmDisplayFormat::C8
    } else if bpp == 16 && depth == 15 {
        DrmDisplayFormat::XRGB1555
    } else if bpp == 16 && depth == 16 {
        DrmDisplayFormat::RGB565
    } else if bpp == 24 && depth == 24 {
        DrmDisplayFormat::RGB888
    } else if bpp == 32 && depth == 24 {
        DrmDisplayFormat::XRGB8888
    } else if bpp == 32 && depth == 30 {
        DrmDisplayFormat::XRGB2101010
    } else if bpp == 32 && depth == 32 {
        DrmDisplayFormat::ARGB8888
    } else {
        DrmDisplayFormat::Unknown
    }
}

/// The `DRM_IOCTL_MODE_ADDFB2` request that a `DRM_IOCTL_MODE_ADDFB`
/// request stands for: one memory plane with its handle and pitch.
pub open spec fn fb_cmd2_of(fb_cmd: DrmModeFbCmd) -> DrmModeFbCmd2 {
    DrmModeFbCmd2 {
        fb_id: fb_cmd.fb_id,
        width: fb_cmd.width,
        height: fb_cmd.height,
        pixel_format: legacy_format_spec(fb_cmd.bpp, fb_cmd.depth).spec_code(),
        flags: 0,
        handles: [fb_cmd.handle, 0, 0, 0],
        pitches: [fb_cmd.pitch, 0, 0, 0],
        offsets: [0, 0, 0, 0],
        modifier: [0, 0, 0, 0],
    }
}

impl From<DrmModeFbCmd> for DrmModeFbCmd2 {
    fn from(fb_cmd: DrmModeFbCmd) -> (r: Self) {
        let format = if fb_cmd.bpp == 8 && fb_cmd.depth == 8 {
            DrmDisplayFormat::C8
        } else if fb_cmd.bpp == 16 && fb_cmd.depth == 15 {
            DrmDisplayFormat::XRGB1555
        } else if fb_cmd.bpp == 16 && fb_cmd.depth == 16 {
            DrmDisplayFormat::RGB565
        } else if fb_cmd.bpp == 24 && fb_cmd.depth == 24 {
            DrmDisplayFormat::RGB888
        } else if fb_cmd.bpp == 32 && fb_cmd.depth == 24 {
            DrmDisplayFormat::XRGB8888
        } else if fb_cmd.bpp == 32 && fb_cmd.depth == 30 {
            DrmDisplayFormat::XRGB2101010
        } else if fb_cmd.bpp == 32 && fb_cmd.depth == 32 {
            DrmDisplayFormat::ARGB8888
        } else {
            DrmDisplayFormat::Unknown
        };
        let r = DrmModeFbCmd2 {
            fb_id: fb_cmd.fb_id,
            width: fb_cmd.width,
            height: fb_cmd.height,
            pixel_format: format.code(),
            flags: 0,
            handles: [fb_cmd.handle, 0, 0, 0],
            pitches: [fb_cmd.pitch, 0, 0, 0],
            offsets: [0, 0, 0, 0],
            modifier: [0, 0, 0, 0],
        };
        assert(r == fb_cmd2_of(fb_cmd));
        r
    }
}

impl vstd::std_specs::convert::FromSpecImpl<DrmModeFbCmd> for DrmModeFbCmd2 {
    open spec fn obeys_from_spec() -> bool {
        true
    }

    open spec fn from_spec(fb_cmd: DrmModeFbCmd) -> DrmModeFbCmd2 {
        fb_cmd2_of(fb_cmd)
    }
}

} // verus!

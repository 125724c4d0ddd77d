//! The ioctl arguments of the simple mode-setting path, laid out as libdrm
//! lays them out.
use vstd::prelude::*;

verus! {

/// `DRM_IOCTL_VERSION` of the simple path, with fixed-size text fields.
#[derive(Debug, Clone, Copy)]
pub struct DrmVersion {
    pub version_major: i32,
    pub version_minor: i32,
    pub version_patchlevel: i32,
    pub name: [u8; 64],
    pub date: [u8; 32],
    pub desc: [u8; 32],
}

impl Default for DrmVersion {
    fn default() -> (v: Self)
        ensures
            v.version_major == 0 && v.version_minor == 0 && v.version_patchlevel == 0,
            v.name@ == Seq::new(64, |i: int| 0u8),
            v.date@ == Seq::new(32, |i: int| 0u8),
            v.desc@ == Seq::new(32, |i: int| 0u8),
    {
        let v = Self {
            version_major: 0,
            version_minor: 0,
            version_patchlevel: 0,
            name: [0u8; 64],
            date: [0u8; 32],
            desc: [0u8; 32],
        };
        assert(v.name@ =~= Seq::new(64, |i: int| 0u8));
        assert(v.date@ =~= Seq::new(32, |i: int| 0u8));
        assert(v.desc@ =~= Seq::new(32, |i: int| 0u8));
        v
    }
}

/// `DRM_IOCTL_GET_CAP`.
#[derive(Debug, Default, Clone, Copy, PartialEq, Eq, Structural)]
pub struct DrmGetCap {
    pub capability: u64,
    pub value: u64,
}

/// The dumb-buffer capability.
pub const DRM_CAP_DUMB_BUFFER: u64 = 0x1;

/// The high-CRTC vblank capability.
pub const DRM_CAP_VBLANK_HIGH_CRTC: u64 = 0x2;

/// The preferred dumb-buffer depth capability.
pub const DRM_CAP_DUMB_PREFERRED_DEPTH: u64 = 0x3;

/// `DRM_IOCTL_MODE_GETRESOURCES`.
#[derive(Debug, Default, Clone, Copy, PartialEq, Eq, Structural)]
pub struct DrmModeCardRes {
    pub fb_id_ptr: u64,
    pub crtc_id_ptr: u64,
    pub connector_id_ptr: u64,
    pub encoder_id_ptr: u64,
    pub count_fbs: u32,
    pub count_crtcs: u32,
    pub count_connectors: u32,
    pub count_encoders: u32,
    pub min_width: u32,
    pub max_width: u32,
    pub min_height: u32,
    pub max_height: u32,
}

/// A display mode as the simple path reports it.
#[derive(Debug, Clone, Copy)]
pub struct DrmModeModeInfo {
    pub clock: u32,
    pub hdisplay: u16,
    pub hsync_start: u16,
    pub hsync_end: u16,
    pub htotal: u16,
    pub hskew: u16,
    pub vdisplay: u16,
    pub vsync_start: u16,
    pub vsync_end: u16,
    pub vtotal: u16,
    pub vscan: u16,
    pub vrefresh: u32,
    pub flags: u32,
    pub type_: u32,
    pub name: [u8; 32],
}

/// The name field that every mode of the simple path carries: `1024x768`.
pub open spec fn mode_name_1024x768() -> Seq<u8> {
    seq![49u8, 48, 50, 52, 120, 55, 54, 56] + Seq::new(24, |i: int| 0u8)
}

impl DrmModeModeInfo {
    /// A mode of `width` x `height` at `refresh` Hz with fixed blanking
    /// intervals and negative horizontal sync.
    pub fn new(width: u16, height: u16, refresh: u32) -> (m: Self)
        requires
            width * height * refresh <= u32::MAX,
            width + 168 <= u16::MAX,
            height + 29 <= u16::MAX,
        ensures
            m.clock == width * height * refresh / 1000,
            m.hdisplay == width && m.hsync_start == width + 48 && m.hsync_end == width + 88 && m.htotal == width + 168,
            m.hskew == 0,
            m.vdisplay == height && m.vsync_start == height + 3 && m.vsync_end == height + 6 && m.vtotal == height + 29,
            m.vscan == 0 && m.vrefresh == refresh && m.flags == 0x20 && m.type_ == 0,
            m.name@ == mode_name_1024x768(),
    {
        proof {
            assert(width * height <= 0xFFFF * 0xFFFF) by (nonlinear_arith)
                requires
                    width <= 0xFFFF,
                    height <= 0xFFFF,
            ;
        }
        let clock = (width as u32) * (height as u32) * refresh / 1000;
        let name: [u8; 32] = [
            49, 48, 50, 52, 120, 55, 54, 56, 0, 0, 0, 0, 0, 0, 0, 0, 0, 0, 0, 0, 0, 0, 0, 0, 0, 0, 0, 0, 0, 0, 0, 0,
        ];
        assert(name@ =~= mode_name_1024x768());
        Self {
            clock,
            hdisplay: width,
            hsync_start: width + 48,
            hsync_end: width + 88,
            htotal: width + 168,
            hskew: 0,
            vdisplay: height,
            vsync_start: height + 3,
            vsync_end: height + 6,
            vtotal: height + 29,
            vscan: 0,
            vrefresh: refresh,
            flags: 0x20,
            type_: 0,
            name,
        }
    }

    /// The all-zero mode.
    pub open spec fn spec_zero(m: Self) -> bool {
        &&& m.clock == 0 && m.hdisplay == 0 && m.hsync_start == 0 && m.hsync_end == 0 && m.htotal == 0
        &&& m.hskew == 0 && m.vdisplay == 0 && m.vsync_start == 0 && m.vsync_end == 0 && m.vtotal == 0
        &&& m.vscan == 0 && m.vrefresh == 0 && m.flags == 0 && m.type_ == 0
        &&& m.name@ == Seq::new(32, |i: int| 0u8)
    }
}

impl Default for DrmModeModeInfo {
    fn default() -> (m: Self)
        ensures
            DrmModeModeInfo::spec_zero(m),
    {
        let m = Self {
            clock: 0,
            hdisplay: 0,
            hsync_start: 0,
            hsync_end: 0,
            htotal: 0,
            hskew: 0,
            vdisplay: 0,
            vsync_start: 0,
            vsync_end: 0,
            vtotal: 0,
            vscan: 0,
            vrefresh: 0,
            flags: 0,
            type_: 0,
            name: [0u8; 32],
        };
        assert(m.name@ =~= Seq::new(32, |i: int| 0u8));
        m
    }
}

/// `DRM_IOCTL_MODE_GETENCODER`.
#[derive(Debug, Default, Clone, Copy, PartialEq, Eq, Structural)]
pub struct DrmModeGetEncoder {
    pub encoder_id: u32,
    pub encoder_type: u32,
    pub crtc_id: u32,
    pub possible_crtcs: u32,
    pub possible_clones: u32,
}

/// Encoder types as the simple path numbers them.
pub const DRM_MODE_ENCODER_DAC: u32 = 0;

pub const DRM_MODE_ENCODER_TVDAC: u32 = 1;

pub const DRM_MODE_ENCODER_LVDS: u32 = 2;

pub const DRM_MODE_ENCODER_TMDS: u32 = 3;

pub const DRM_MODE_ENCODER_VIRTUAL: u32 = 4;

pub const DRM_MODE_ENCODER_DPI: u32 = 5;

/// `DRM_IOCTL_MODE_GETCONNECTOR`.
#[derive(Debug, Clone, Copy)]
pub struct DrmModeGetConnector {
    pub encoders_ptr: u64,
    pub modes_ptr: u64,
    pub props_ptr: u64,
    pub prop_values_ptr: u64,
    pub count_modes: u32,
    pub count_props: u32,
    pub count_encoders: u32,
    pub encoder_id: u32,
    pub connector_id: u32,
    pub connector_type: u32,
    pub connector_type_id: u32,
    pub connection: u32,
    pub mm_width: u32,
    pub mm_height: u32,
    pub subpixel: u32,
    pub pad: [u8; 4],
}

impl Default for DrmModeGetConnector {
    fn default() -> (c: Self)
        ensures
            c.encoders_ptr == 0 && c.modes_ptr == 0 && c.props_ptr == 0 && c.prop_values_ptr == 0,
            c.count_modes == 0 && c.count_props == 0 && c.count_encoders == 0 && c.encoder_id == 0,
            c.connector_id == 0 && c.connector_type == 0 && c.connector_type_id == 0 && c.connection == 0,
            c.mm_width == 0 && c.mm_height == 0 && c.subpixel == 0,
            c.pad@ == seq![0u8, 0, 0, 0],
    {
        let c = Self {
            encoders_ptr: 0,
            modes_ptr: 0,
            props_ptr: 0,
            prop_values_ptr: 0,
            count_modes: 0,
            count_props: 0,
            count_encoders: 0,
            encoder_id: 0,
            connector_id: 0,
            connector_type: 0,
            connector_type_id: 0,
            connection: 0,
            mm_width: 0,
            mm_height: 0,
            subpixel: 0,
            pad: [0u8; 4],
        };
        assert(c.pad@ =~= seq![0u8, 0, 0, 0]);
        c
    }
}

/// Connection states as the simple path numbers them.
pub const DRM_MODE_CONNECTED: u32 = 1;

pub const DRM_MODE_DISCONNECTED: u32 = 2;

pub const DRM_MODE_UNKNOWNCONNECTION: u32 = 3;

/// `DRM_IOCTL_MODE_GETCRTC` and `DRM_IOCTL_MODE_SETCRTC`.
#[derive(Debug, Clone, Copy)]
pub struct DrmModeCrtc {
    pub set_connectors_ptr: u64,
    pub count_connectors: u32,
    pub crtc_id: u32,
    pub fb_id: u32,
    pub x: u32,
    pub y: u32,
    pub gamma_size: u32,
    pub mode_valid: u32,
    pub mode: DrmModeModeInfo,
}

impl DrmModeCrtc {
    /// All fields zero.
    pub fn new() -> (c: Self)
        ensures
            c.set_connectors_ptr == 0 && c.count_connectors == 0 && c.crtc_id == 0 && c.fb_id == 0,
            c.x == 0 && c.y == 0 && c.gamma_size == 0 && c.mode_valid == 0,
            DrmModeModeInfo::spec_zero(c.mode),
    {
        Self {
            set_connectors_ptr: 0,
            count_connectors: 0,
            crtc_id: 0,
            fb_id: 0,
            x: 0,
            y: 0,
            gamma_size: 0,
            mode_valid: 0,
            mode: DrmModeModeInfo::default(),
        }
    }
}

/// `DRM_IOCTL_MODE_ADDFB`.
#[derive(Debug, Default, Clone, Copy, PartialEq, Eq, Structural)]
pub struct DrmModeFbCmd {
    pub fb_id: u32,
    pub width: u32,
    pub height: u32,
    pub pitch: u32,
    pub bpp: u32,
    pub depth: u32,
    pub handle: u32,
}

impl DrmModeFbCmd {
    /// All fields zero.
    pub fn new() -> (c: Self)
        ensures
            c == (DrmModeFbCmd { fb_id: 0, width: 0, height: 0, pitch: 0, bpp: 0, depth: 0, handle: 0 }),
    {
        Self { fb_id: 0, width: 0, height: 0, pitch: 0, bpp: 0, depth: 0, handle: 0 }
    }
}

/// `DRM_IOCTL_MODE_RMFB`.
#[derive(Debug, Default, Clone, Copy, PartialEq, Eq, Structural)]
pub struct DrmModeRmFb {
    pub fb_id: u32,
}

/// `DRM_IOCTL_MODE_GETFB`.
#[derive(Debug, Default, Clone, Copy)]
pub struct DrmModeGetFb {
    pub fb_id: u32,
    pub width: u32,
    pub height: u32,
    pub pitch: u32,
    pub bpp: u32,
    pub depth: u32,
    pub handle: u32,
    pub pad: [u8; 4],
    pub offset: u64,
}

/// `DRM_IOCTL_MODE_PAGE_FLIP`.
#[derive(Debug, Default, Clone, Copy, PartialEq, Eq, Structural)]
pub struct DrmModePageFlip {
    pub crtc_id: u32,
    pub fb_id: u32,
    pub flags: u32,
    pub sequence: u32,
    pub user_data: u64,
    pub reserved: u64,
}

/// `DRM_IOCTL_MODE_CREATE_DUMB`.
#[derive(Debug, Default, Clone, Copy, PartialEq, Eq, Structural)]
pub struct DrmModeCreateDumb {
    pub height: u32,
    pub width: u32,
    pub bpp: u32,
    pub flags: u32,
    pub handle: u32,
    pub pitch: u32,
    pub size: u64,
}

/// `DRM_IOCTL_MODE_MAP_DUMB`.
#[derive(Debug, Default, Clone, Copy, PartialEq, Eq, Structural)]
pub struct DrmModeMapDumb {
    pub handle: u32,
    pub pad: u32,
    pub offset: u64,
}

/// `DRM_IOCTL_MODE_DESTROY_DUMB`.
#[derive(Debug, Default, Clone, Copy, PartialEq, Eq, Structural)]
pub struct DrmModeDestroyDumb {
    pub handle: u32,
}

} // verus!

//! The framebuffer character device: the screen information it reports,
//! the mode changes it accepts, its colour map requests, and how reads,
//! writes and mappings are bounded by the framebuffer memory.
use vstd::prelude::*;
use crate::error::{Errno, FbError};
use crate::vma_manager::PAGE_SIZE;
use crate::connector::{DrmConnStatus, DrmConnectorSnapshot};
use crate::display::DrmDisplayMode;
use crate::fbdev::{
    cmap_after_set, cmap_range_ok, cmap_read, nbytes_spec, ColorMapEntry, FbCmap, PixelFormat,
    MAX_CMAP_SIZE,
};

verus! {

pub const FB_TYPE_PACKED_PIXELS: u32 = 0;

pub const FB_VISUAL_TRUECOLOR: u32 = 2;

pub const FB_ACCEL_NONE: u32 = 0;

/// Pixel clock numerator of the reported timings.
pub const DEFAULT_PIXEL_CLOCK_DIVISOR: u32 = 10_000_000;

pub const DEFAULT_RIGHT_MARGIN: u32 = 32;

pub const DEFAULT_UPPER_MARGIN: u32 = 16;

pub const DEFAULT_LOWER_MARGIN: u32 = 4;

pub const DEFAULT_VSYNC_LEN: u32 = 4;

/// The place of one colour channel in a pixel (`struct fb_bitfield`).
#[derive(Debug, Clone, Copy, PartialEq, Eq, Structural)]
pub struct FbBitfield {
    /// Bit offset of the field.
    pub offset: u32,
    /// Length of the field in bits.
    pub length: u32,
    /// Whether the most significant bit is on the right.
    pub msb_right: u32,
}

pub open spec fn bitfield(offset: u32, length: u32) -> FbBitfield {
    FbBitfield { offset, length, msb_right: 0 }
}

/// The red, green, blue and transparency fields of a pixel format.
pub open spec fn bitfields_spec(format: PixelFormat) -> (FbBitfield, FbBitfield, FbBitfield, FbBitfield) {
    match format {
        PixelFormat::Grayscale8 => (bitfield(0, 8), bitfield(0, 8), bitfield(0, 8), bitfield(0, 0)),
        PixelFormat::Rgb565 => (bitfield(11, 5), bitfield(5, 6), bitfield(0, 5), bitfield(0, 0)),
        PixelFormat::Rgb888 => (bitfield(16, 8), bitfield(8, 8), bitfield(0, 8), bitfield(0, 0)),
        PixelFormat::BgrReserved => (bitfield(16, 8), bitfield(8, 8), bitfield(0, 8), bitfield(24, 8)),
    }
}

impl FbBitfield {
    /// The channel fields of `pixel_format`, as Linux reports them.
    pub fn from_pixel_format(pixel_format: PixelFormat) -> (r: (FbBitfield, FbBitfield, FbBitfield, FbBitfield))
        ensures
            r == bitfields_spec(pixel_format),
    {
        let none = FbBitfield { offset: 0, length: 0, msb_right: 0 };
        match pixel_format {
            PixelFormat::Grayscale8 => (
                FbBitfield { offset: 0, length: 8, msb_right: 0 },
                FbBitfield { offset: 0, length: 8, msb_right: 0 },
                FbBitfield { offset: 0, length: 8, msb_right: 0 },
                none,
            ),
            PixelFormat::Rgb565 => (
                FbBitfield { offset: 11, length: 5, msb_right: 0 },
                FbBitfield { offset: 5, length: 6, msb_right: 0 },
                FbBitfield { offset: 0, length: 5, msb_right: 0 },
                none,
            ),
            PixelFormat::Rgb888 => (
                FbBitfield { offset: 16, length: 8, msb_right: 0 },
                FbBitfield { offset: 8, length: 8, msb_right: 0 },
                FbBitfield { offset: 0, length: 8, msb_right: 0 },
                none,
            ),
            PixelFormat::BgrReserved => (
                FbBitfield { offset: 16, length: 8, msb_right: 0 },
                FbBitfield { offset: 8, length: 8, msb_right: 0 },
                FbBitfield { offset: 0, length: 8, msb_right: 0 },
                FbBitfield { offset: 24, length: 8, msb_right: 0 },
            ),
        }
    }
}

/// Variable screen information (`struct fb_var_screeninfo`).
#[derive(Debug, Clone, Copy)]
pub struct FbVarScreenInfo {
    pub xres: u32,
    pub yres: u32,
    pub xres_virtual: u32,
    pub yres_virtual: u32,
    pub xoffset: u32,
    pub yoffset: u32,
    pub bits_per_pixel: u32,
    pub grayscale: u32,
    pub red: FbBitfield,
    pub green: FbBitfield,
    pub blue: FbBitfield,
    pub transp: FbBitfield,
    pub nonstd: u32,
    pub activate: u32,
    /// Height of the display in millimetres.
    pub height: u32,
    /// Width of the display in millimetres.
    pub width: u32,
    pub accel_flags: u32,
    /// Pixel clock period in picoseconds.
    pub pixclock: u32,
    pub left_margin: u32,
    pub right_margin: u32,
    pub upper_margin: u32,
    pub lower_margin: u32,
    pub hsync_len: u32,
    pub vsync_len: u32,
    pub sync: u32,
    pub vmode: u32,
    pub rotate: u32,
    pub colorspace: u32,
    pub reserved: [u32; 4],
}

/// Fixed screen information (`struct fb_fix_screeninfo`).
#[derive(Debug, Clone, Copy)]
pub struct FbFixScreenInfo {
    pub id: [u8; 16],
    pub smem_start: u64,
    pub smem_len: u32,
    pub type_: u32,
    pub type_aux: u32,
    pub visual: u32,
    pub xpanstep: u16,
    pub ypanstep: u16,
    pub ywrapstep: u16,
    pub line_length: u32,
    pub mmio_start: u64,
    pub mmio_len: u32,
    pub accel: u32,
    pub capabilities: u16,
    pub reserved: [u16; 2],
}

/// What the device shows of its framebuffer: a DRM scanout that it set up
/// itself, or the boot framebuffer.
#[derive(Debug, Clone, Copy, PartialEq, Eq, Structural)]
pub enum FbBackend {
    Drm { fb_id: u32, width: u32, height: u32, width_mm: u32, height_mm: u32, pitch_bytes: u32, size_bytes: usize },
    Legacy { width: usize, height: usize, line_size: usize, pixel_format: PixelFormat, paddr: usize, size: usize },
}

/// The timings reported for a mode of `w` by `h` pixels.
pub open spec fn pixclock_spec(w: u32, h: u32) -> int {
    DEFAULT_PIXEL_CLOCK_DIVISOR / w * 1000 / h as int
}

/// Whether the reported timings can be computed for `w` by `h` pixels.
pub open spec fn timings_fit(w: u32, h: u32) -> bool {
    w > 0 && h > 0 && DEFAULT_PIXEL_CLOCK_DIVISOR / w * 1000 <= u32::MAX
}

/// The variable screen information of a mode, with every other field zero.
pub open spec fn var_info_spec(
    w: u32,
    h: u32,
    bpp: u32,
    fields: (FbBitfield, FbBitfield, FbBitfield, FbBitfield),
    height_mm: u32,
    width_mm: u32,
) -> FbVarScreenInfo {
    FbVarScreenInfo {
        xres: w,
        yres: h,
        xres_virtual: w,
        yres_virtual: h,
        xoffset: 0,
        yoffset: 0,
        bits_per_pixel: bpp,
        grayscale: 0,
        red: fields.0,
        green: fields.1,
        blue: fields.2,
        transp: fields.3,
        nonstd: 0,
        activate: 0,
        height: height_mm,
        width: width_mm,
        accel_flags: 0,
        pixclock: pixclock_spec(w, h) as u32,
        left_margin: (w / 8) & 0xf8,
        right_margin: DEFAULT_RIGHT_MARGIN,
        upper_margin: DEFAULT_UPPER_MARGIN,
        lower_margin: DEFAULT_LOWER_MARGIN,
        hsync_len: (w / 8) & 0xf8,
        vsync_len: DEFAULT_VSYNC_LEN,
        sync: 0,
        vmode: 0,
        rotate: 0,
        colorspace: 0,
        reserved: [0u32, 0, 0, 0],
    }
}

/// Whether the screen information of a backend can be computed.
pub open spec fn backend_timings_fit(b: FbBackend) -> bool {
    match b {
        FbBackend::Drm { width, height, .. } => timings_fit(width, height),
        FbBackend::Legacy { width, height, .. } => timings_fit(width as u32, height as u32),
    }
}

/// The variable screen information a backend reports: a DRM scanout is
/// always 32-bit BGRX with its physical size; the boot framebuffer reports
/// its own format and no physical size.
pub open spec fn var_screen_info_spec(b: FbBackend) -> FbVarScreenInfo {
    match b {
        FbBackend::Drm { width, height, width_mm, height_mm, .. } => var_info_spec(
            width,
            height,
            32,
            bitfields_spec(PixelFormat::BgrReserved),
            height_mm,
            width_mm,
        ),
        FbBackend::Legacy { width, height, pixel_format, .. } => var_info_spec(
            width as u32,
            height as u32,
            (8 * nbytes_spec(pixel_format)) as u32,
            bitfields_spec(pixel_format),
            0,
            0,
        ),
    }
}

/// The identification string "drmfb".
pub open spec fn drmfb_id() -> [u8; 16] {
    [0x64u8, 0x72, 0x6d, 0x66, 0x62, 0, 0, 0, 0, 0, 0, 0, 0, 0, 0, 0]
}

/// The identification string "asterfb".
pub open spec fn asterfb_id() -> [u8; 16] {
    [0x61u8, 0x73, 0x74, 0x65, 0x72, 0x66, 0x62, 0, 0, 0, 0, 0, 0, 0, 0, 0]
}

/// The fixed screen information a backend reports: packed true-colour
/// pixels, no acceleration, the memory size and line length; the boot
/// framebuffer also gives its physical address.
pub open spec fn fix_screen_info_spec(b: FbBackend) -> FbFixScreenInfo {
    let (id, smem_start, smem_len, line_length) = match b {
        FbBackend::Drm { pitch_bytes, size_bytes, .. } => (drmfb_id(), 0u64, size_bytes as u32, pitch_bytes),
        FbBackend::Legacy { line_size, paddr, size, .. } => (asterfb_id(), paddr as u64, size as u32, line_size as u32),
    };
    FbFixScreenInfo {
        id,
        smem_start,
        smem_len,
        type_: FB_TYPE_PACKED_PIXELS,
        type_aux: 0,
        visual: FB_VISUAL_TRUECOLOR,
        xpanstep: 0,
        ypanstep: 0,
        ywrapstep: 0,
        line_length,
        mmio_start: 0,
        mmio_len: 0,
        accel: FB_ACCEL_NONE,
        capabilities: 0,
        reserved: [0u16, 0],
    }
}

fn var_info(
    w: u32,
    h: u32,
    bpp: u32,
    fields: (FbBitfield, FbBitfield, FbBitfield, FbBitfield),
    height_mm: u32,
    width_mm: u32,
) -> (v: FbVarScreenInfo)
    requires
        timings_fit(w, h),
    ensures
        v == var_info_spec(w, h, bpp, fields, height_mm, width_mm),
{
    let pixclock = DEFAULT_PIXEL_CLOCK_DIVISOR / w * 1000 / h;
    FbVarScreenInfo {
        xres: w,
        yres: h,
        xres_virtual: w,
        yres_virtual: h,
        xoffset: 0,
        yoffset: 0,
        bits_per_pixel: bpp,
        grayscale: 0,
        red: fields.0,
        green: fields.1,
        blue: fields.2,
        transp: fields.3,
        nonstd: 0,
        activate: 0,
        height: height_mm,
        width: width_mm,
        accel_flags: 0,
        pixclock,
        left_margin: (w / 8) & 0xf8,
        right_margin: DEFAULT_RIGHT_MARGIN,
        upper_margin: DEFAULT_UPPER_MARGIN,
        lower_margin: DEFAULT_LOWER_MARGIN,
        hsync_len: (w / 8) & 0xf8,
        vsync_len: DEFAULT_VSYNC_LEN,
        sync: 0,
        vmode: 0,
        rotate: 0,
        colorspace: 0,
        reserved: [0u32, 0, 0, 0],
    }
}

impl FbBackend {
    /// Whether the framebuffer is a DRM scanout.
    pub fn is_drm(&self) -> (r: bool)
        ensures
            r == (*self is Drm),
    {
        match self {
            FbBackend::Drm { .. } => true,
            FbBackend::Legacy { .. } => false,
        }
    }

    /// The variable screen information to report.
    pub fn collect_var_screen_info(&self) -> (v: FbVarScreenInfo)
        requires
            backend_timings_fit(*self),
        ensures
            v == var_screen_info_spec(*self),
    {
        match self {
            FbBackend::Drm { width, height, width_mm, height_mm, .. } => {
                let fields = FbBitfield::from_pixel_format(PixelFormat::BgrReserved);
                var_info(*width, *height, 32, fields, *height_mm, *width_mm)
            },
            FbBackend::Legacy { width, height, pixel_format, .. } => {
                let fields = FbBitfield::from_pixel_format(*pixel_format);
                let bpp = (8 * pixel_format.nbytes()) as u32;
                var_info(*width as u32, *height as u32, bpp, fields, 0, 0)
            },
        }
    }

    /// The fixed screen information to report.
    pub fn collect_fix_screen_info(&self) -> (v: FbFixScreenInfo)
        ensures
            v == fix_screen_info_spec(*self),
    {
        let (id, smem_start, smem_len, line_length) = match self {
            FbBackend::Drm { pitch_bytes, size_bytes, .. } => (
                [0x64u8, 0x72, 0x6d, 0x66, 0x62, 0, 0, 0, 0, 0, 0, 0, 0, 0, 0, 0],
                0u64,
                *size_bytes as u32,
                *pitch_bytes,
            ),
            FbBackend::Legacy { line_size, paddr, size, .. } => (
                [0x61u8, 0x73, 0x74, 0x65, 0x72, 0x66, 0x62, 0, 0, 0, 0, 0, 0, 0, 0, 0],
                *paddr as u64,
                *size as u32,
                *line_size as u32,
            ),
        };
        FbFixScreenInfo {
            id,
            smem_start,
            smem_len,
            type_: FB_TYPE_PACKED_PIXELS,
            type_aux: 0,
            visual: FB_VISUAL_TRUECOLOR,
            xpanstep: 0,
            ypanstep: 0,
            ywrapstep: 0,
            line_length,
            mmio_start: 0,
            mmio_len: 0,
            accel: FB_ACCEL_NONE,
            capabilities: 0,
            reserved: [0u16, 0],
        }
    }
}

/// Whether a requested mode is the current one: same resolution, depth,
/// channels and pixel layout, and no panning.
pub open spec fn var_request_ok(req: FbVarScreenInfo, cur: FbVarScreenInfo) -> bool {
    &&& req.xres == cur.xres
    &&& req.yres == cur.yres
    &&& req.xres_virtual == cur.xres_virtual
    &&& req.yres_virtual == cur.yres_virtual
    &&& req.xoffset == 0
    &&& req.yoffset == 0
    &&& req.bits_per_pixel == cur.bits_per_pixel
    &&& req.grayscale == cur.grayscale
    &&& req.nonstd == cur.nonstd
    &&& req.rotate == cur.rotate
    &&& req.red == cur.red
    &&& req.green == cur.green
    &&& req.blue == cur.blue
    &&& req.transp == cur.transp
}

/// Whether a requested pan keeps the current scanout: same resolution,
/// depth and channels, and no offset.
pub open spec fn pan_request_ok(req: FbVarScreenInfo, cur: FbVarScreenInfo) -> bool {
    &&& req.xres == cur.xres
    &&& req.yres == cur.yres
    &&& req.bits_per_pixel == cur.bits_per_pixel
    &&& req.red == cur.red
    &&& req.green == cur.green
    &&& req.blue == cur.blue
    &&& req.transp == cur.transp
    &&& req.xoffset == 0
    &&& req.yoffset == 0
    &&& req.xres_virtual == cur.xres_virtual
    &&& req.yres_virtual == cur.yres_virtual
}

impl FbBackend {
    /// Accepts a mode change only if it asks for the current mode.
    pub fn validate_var_screen_info(&self, requested: &FbVarScreenInfo) -> (r: Result<(), Errno>)
        requires
            backend_timings_fit(*self),
        ensures
            r is Ok <==> var_request_ok(*requested, var_screen_info_spec(*self)),
            r is Err ==> r == Err::<(), Errno>(Errno::EINVAL),
    {
        let current = self.collect_var_screen_info();
        if requested.xres != current.xres || requested.yres != current.yres || requested.xres_virtual
            != current.xres_virtual || requested.yres_virtual != current.yres_virtual || requested.xoffset != 0
            || requested.yoffset != 0 || requested.bits_per_pixel != current.bits_per_pixel || requested.grayscale
            != current.grayscale || requested.nonstd != current.nonstd || requested.rotate != current.rotate
            || requested.red != current.red || requested.green != current.green || requested.blue != current.blue
            || requested.transp != current.transp {
            return Err(Errno::EINVAL);
        }
        Ok(())
    }

    /// Accepts a pan only if it keeps the current scanout unmoved.
    pub fn validate_pan_display(&self, requested: &FbVarScreenInfo) -> (r: Result<(), Errno>)
        requires
            backend_timings_fit(*self),
        ensures
            r is Ok <==> pan_request_ok(*requested, var_screen_info_spec(*self)),
            r is Err ==> r == Err::<(), Errno>(Errno::EINVAL),
    {
        let current = self.collect_var_screen_info();
        if requested.xres != current.xres || requested.yres != current.yres || requested.bits_per_pixel
            != current.bits_per_pixel || requested.red != current.red || requested.green != current.green
            || requested.blue != current.blue || requested.transp != current.transp || requested.xoffset != 0
            || requested.yoffset != 0 || requested.xres_virtual != current.xres_virtual || requested.yres_virtual
            != current.yres_virtual {
            return Err(Errno::EINVAL);
        }
        Ok(())
    }
}

/// A colour map request from user space (`struct fb_cmap`): a range of
/// entries and the user addresses of one array per channel.
#[derive(Debug, Clone, Copy, PartialEq, Eq, Structural)]
pub struct FbCmapUser {
    pub start: u32,
    pub len: u32,
    pub red: usize,
    pub green: usize,
    pub blue: usize,
    /// Zero when the caller passes no transparency array.
    pub transp: usize,
}

/// Colour map entries split into one array per channel, as user space
/// receives them; the transparency array only where the caller asked for it.
pub struct CmapChannels {
    pub red: Vec<u16>,
    pub green: Vec<u16>,
    pub blue: Vec<u16>,
    pub transp: Option<Vec<u16>>,
}

pub open spec fn reds(e: Seq<ColorMapEntry>) -> Seq<u16> {
    Seq::new(e.len(), |i: int| e[i].red)
}

pub open spec fn greens(e: Seq<ColorMapEntry>) -> Seq<u16> {
    Seq::new(e.len(), |i: int| e[i].green)
}

pub open spec fn blues(e: Seq<ColorMapEntry>) -> Seq<u16> {
    Seq::new(e.len(), |i: int| e[i].blue)
}

pub open spec fn transps(e: Seq<ColorMapEntry>) -> Seq<u16> {
    Seq::new(e.len(), |i: int| e[i].transp)
}

/// Whether `c` holds exactly the channels of `e`, with the transparency
/// array present iff `with_transp`.
pub open spec fn channels_of(c: CmapChannels, e: Seq<ColorMapEntry>, with_transp: bool) -> bool {
    &&& c.red@ == reds(e)
    &&& c.green@ == greens(e)
    &&& c.blue@ == blues(e)
    &&& if with_transp { c.transp is Some && c.transp->0@ == transps(e) } else { c.transp is None }
}

/// Answers a colour map read: an empty request gives nothing; a range
/// that is not wholly inside the map is invalid.
pub fn handle_get_cmap(cmap: &FbCmap, cmap_user: &FbCmapUser) -> (r: Result<CmapChannels, Errno>)
    ensures
        cmap_user.len == 0 ==> r is Ok && channels_of(r->Ok_0, Seq::empty(), false),
        cmap_user.len != 0 ==> match cmap_read(cmap.spec_entries(), cmap_user.start as int, cmap_user.len as int) {
            Some(e) => r is Ok && channels_of(r->Ok_0, e, cmap_user.transp != 0),
            None => r == Err::<CmapChannels, Errno>(Errno::EINVAL),
        },
{
    if cmap_user.len == 0 {
        let c = CmapChannels { red: Vec::new(), green: Vec::new(), blue: Vec::new(), transp: None };
        proof {
            assert(c.red@ =~= reds(Seq::empty()));
            assert(c.green@ =~= greens(Seq::empty()));
            assert(c.blue@ =~= blues(Seq::empty()));
        }
        return Ok(c);
    }
    let start = cmap_user.start as usize;
    let len = cmap_user.len as usize;
    let entries = match cmap.get_color_map(start, len) {
        Some(e) => e,
        None => {
            return Err(Errno::EINVAL);
        },
    };
    let n = entries.len();
    let mut red: Vec<u16> = Vec::new();
    let mut green: Vec<u16> = Vec::new();
    let mut blue: Vec<u16> = Vec::new();
    let mut transp: Vec<u16> = Vec::new();
    let mut i: usize = 0;
    while i < n
        invariant
            n == entries@.len(),
            i <= n,
            red@ == reds(entries@.take(i as int)),
            green@ == greens(entries@.take(i as int)),
            blue@ == blues(entries@.take(i as int)),
            transp@ == transps(entries@.take(i as int)),
        decreases n - i,
    {
        let e = entries[i];
        red.push(e.red);
        green.push(e.green);
        blue.push(e.blue);
        transp.push(e.transp);
        i = i + 1;
        proof {
            assert(red@ =~= reds(entries@.take(i as int)));
            assert(green@ =~= greens(entries@.take(i as int)));
            assert(blue@ =~= blues(entries@.take(i as int)));
            assert(transp@ =~= transps(entries@.take(i as int)));
        }
    }
    proof {
        assert(entries@.take(n as int) =~= entries@);
    }
    let transp = if cmap_user.transp != 0 { Some(transp) } else { None };
    Ok(CmapChannels { red, green, blue, transp })
}

/// The range a colour map write stores, checked before any user memory is
/// read: `None` for an empty request; a range past the maximum size is
/// invalid.
pub fn set_cmap_range(cmap_user: &FbCmapUser) -> (r: Result<Option<(usize, usize)>, Errno>)
    ensures
        cmap_user.len == 0 ==> r == Ok::<Option<(usize, usize)>, Errno>(None),
        cmap_user.len != 0 ==> if cmap_range_ok(cmap_user.start as int, cmap_user.len as int) {
            r == Ok::<Option<(usize, usize)>, Errno>(Some((cmap_user.start as usize, cmap_user.len as usize)))
        } else {
            r == Err::<Option<(usize, usize)>, Errno>(Errno::EINVAL)
        },
{
    if cmap_user.len == 0 {
        return Ok(None);
    }
    let start = cmap_user.start as usize;
    let len = cmap_user.len as usize;
    if start > MAX_CMAP_SIZE || len > MAX_CMAP_SIZE - start {
        return Err(Errno::EINVAL);
    }
    Ok(Some((start, len)))
}

/// The entries whose channels are the `i`-th values of the four arrays.
pub open spec fn entries_of(red: Seq<u16>, green: Seq<u16>, blue: Seq<u16>, transp: Seq<u16>) -> Seq<ColorMapEntry> {
    Seq::new(red.len(), |i: int| ColorMapEntry { red: red[i], green: green[i], blue: blue[i], transp: transp[i] })
}

/// Stores the entries read from user space at `start`; a caller that gave
/// no transparency array passes zeros.
pub fn store_cmap(cmap: &mut FbCmap, start: usize, red: &[u16], green: &[u16], blue: &[u16], transp: &[u16])
    requires
        green@.len() == red@.len(),
        blue@.len() == red@.len(),
        transp@.len() == red@.len(),
        cmap_range_ok(start as int, red@.len() as int),
    ensures
        final(cmap).spec_entries() == cmap_after_set(
            old(cmap).spec_entries(),
            start as int,
            entries_of(red@, green@, blue@, transp@),
        ),
{
    let n = red.len();
    let mut entries: Vec<ColorMapEntry> = Vec::new();
    let mut i: usize = 0;
    while i < n
        invariant
            n == red@.len(),
            green@.len() == n,
            blue@.len() == n,
            transp@.len() == n,
            i <= n,
            entries@ == entries_of(red@, green@, blue@, transp@).take(i as int),
        decreases n - i,
    {
        entries.push(ColorMapEntry { red: red[i], green: green[i], blue: blue[i], transp: transp[i] });
        i = i + 1;
        proof {
            assert(entries@ =~= entries_of(red@, green@, blue@, transp@).take(i as int));
        }
    }
    proof {
        assert(entries@ =~= entries_of(red@, green@, blue@, transp@));
    }
    let r = cmap.set_color_map(start, entries.as_slice());
    assert(r is Ok);
}

/// How many bytes a read of `avail` bytes at `offset` copies from memory
/// of `size` bytes: none at or past the end, else up to the end.
pub open spec fn read_len_spec(offset: int, avail: int, size: int) -> int {
    if avail == 0 || offset >= size {
        0
    } else if avail < size - offset {
        avail
    } else {
        size - offset
    }
}

/// The number of bytes a read copies.
pub fn read_len(offset: usize, avail: usize, size: usize) -> (n: usize)
    ensures
        n == read_len_spec(offset as int, avail as int, size as int),
{
    if avail == 0 || offset >= size {
        return 0;
    }
    if avail < size - offset {
        avail
    } else {
        size - offset
    }
}

/// The number of bytes a write of `remain` bytes at `offset` copies into
/// memory of `size` bytes: it is cut at the end, and one that starts at or
/// past the end finds no space.
pub fn write_len(offset: usize, remain: usize, size: usize) -> (r: Result<usize, Errno>)
    ensures
        remain == 0 ==> r == Ok::<usize, Errno>(0),
        remain != 0 && offset >= size ==> r == Err::<usize, Errno>(Errno::ENOSPC),
        remain != 0 && offset < size ==> r == Ok::<usize, Errno>(
            (if remain < size - offset { remain as int } else { size - offset }) as usize,
        ),
{
    if remain == 0 {
        return Ok(0);
    }
    if offset >= size {
        return Err(Errno::ENOSPC);
    }
    if remain < size - offset {
        Ok(remain)
    } else {
        Ok(size - offset)
    }
}

/// A mapping of the framebuffer device.
#[derive(Debug, Clone, Copy, PartialEq, Eq, Structural)]
pub enum FbMapHandle {
    /// Pages of the scanout buffer of DRM framebuffer `fb_id`, faulted in on
    /// demand, from byte `object_offset` of the buffer.
    Drm { fb_id: u32, object_offset: usize },
    /// Device memory of the boot framebuffer, mapped when it was created.
    Legacy,
}

/// What mapping the framebuffer at `offset` does.
#[derive(Debug, Clone, Copy, PartialEq, Eq, Structural)]
pub enum FbMapping {
    /// A mapping whose pages are faulted in.
    OnDemand(FbMapHandle),
    /// Map the device memory in `start..end` now.
    DeviceMemory { start: usize, end: usize },
    /// Nothing to map: the offset lies past the device memory.
    Empty,
}

impl FbBackend {
    /// Starts a mapping at `offset`: a DRM scanout needs a page-aligned
    /// offset; the boot framebuffer maps the rest of its memory at once.
    pub fn map(&self, offset: usize) -> (r: Result<FbMapping, Errno>)
        ensures
            match *self {
                FbBackend::Drm { fb_id, .. } => if offset % PAGE_SIZE != 0 {
                    r == Err::<FbMapping, Errno>(Errno::EINVAL)
                } else {
                    r == Ok::<FbMapping, Errno>(
                        FbMapping::OnDemand(FbMapHandle::Drm { fb_id, object_offset: offset }),
                    )
                },
                FbBackend::Legacy { size, .. } => if offset >= size {
                    r == Ok::<FbMapping, Errno>(FbMapping::Empty)
                } else {
                    r == Ok::<FbMapping, Errno>(FbMapping::DeviceMemory { start: offset, end: size })
                },
            },
    {
        match self {
            FbBackend::Drm { fb_id, .. } => {
                if offset % PAGE_SIZE != 0 {
                    return Err(Errno::EINVAL);
                }
                Ok(FbMapping::OnDemand(FbMapHandle::Drm { fb_id: *fb_id, object_offset: offset }))
            },
            FbBackend::Legacy { size, .. } => {
                if offset >= *size {
                    Ok(FbMapping::Empty)
                } else {
                    Ok(FbMapping::DeviceMemory { start: offset, end: *size })
                }
            },
        }
    }
}

impl FbMapHandle {
    /// A second handle on the same mapping.
    pub fn dup(&self) -> (h: Self)
        ensures
            h == *self,
    {
        *self
    }

    /// Splits the mapping at `offset` bytes: the right part starts that far
    /// into the buffer (saturating).
    pub fn split_at(self, offset: usize) -> (r: (Self, Self))
        ensures
            match self {
                FbMapHandle::Drm { fb_id, object_offset } => r == (
                    self,
                    FbMapHandle::Drm {
                        fb_id,
                        object_offset: if object_offset + offset > usize::MAX {
                            usize::MAX
                        } else {
                            (object_offset + offset) as usize
                        },
                    },
                ),
                FbMapHandle::Legacy => r == (FbMapHandle::Legacy, FbMapHandle::Legacy),
            },
    {
        match self {
            FbMapHandle::Drm { fb_id, object_offset } => {
                let right = FbMapHandle::Drm { fb_id, object_offset: object_offset.saturating_add(offset) };
                (self, right)
            },
            FbMapHandle::Legacy => (FbMapHandle::Legacy, FbMapHandle::Legacy),
        }
    }

    /// The buffer offset of the page that a fault at `offset` into the
    /// mapping needs: device memory is never faulted in, and the offset
    /// must not overflow and must be page-aligned.
    pub fn fault_offset(&self, offset: usize) -> (r: Result<usize, Errno>)
        ensures
            match *self {
                FbMapHandle::Legacy => r == Err::<usize, Errno>(Errno::EFAULT),
                FbMapHandle::Drm { object_offset, .. } => if object_offset + offset > usize::MAX {
                    r == Err::<usize, Errno>(Errno::EOVERFLOW)
                } else if (object_offset + offset) % (PAGE_SIZE as int) != 0 {
                    r == Err::<usize, Errno>(Errno::EINVAL)
                } else {
                    r == Ok::<usize, Errno>((object_offset + offset) as usize)
                },
            },
    {
        match self {
            FbMapHandle::Legacy => Err(Errno::EFAULT),
            FbMapHandle::Drm { object_offset, .. } => {
                let o = match object_offset.checked_add(offset) {
                    Some(o) => o,
                    None => {
                        return Err(Errno::EOVERFLOW);
                    },
                };
                if o % PAGE_SIZE != 0 {
                    return Err(Errno::EINVAL);
                }
                Ok(o)
            },
        }
    }
}

/// The requests of the framebuffer device.
#[derive(Debug, Clone, Copy, PartialEq, Eq, Structural)]
pub enum FbIoctlCmd {
    GetVarScreenInfo,
    PutVarScreenInfo,
    GetFixScreenInfo,
    GetColorMap,
    PutColorMap,
    PanDisplay,
    Blank,
}

pub const FBIOGET_VSCREENINFO: u32 = 0x4600;

pub const FBIOPUT_VSCREENINFO: u32 = 0x4601;

pub const FBIOGET_FSCREENINFO: u32 = 0x4602;

pub const FBIOGETCMAP: u32 = 0x4604;

pub const FBIOPUTCMAP: u32 = 0x4605;

pub const FBIOPAN_DISPLAY: u32 = 0x4606;

pub const FBIOBLANK: u32 = 0x4611;

pub open spec fn fb_ioctl_spec(cmd: u32) -> Option<FbIoctlCmd> {
    if cmd == FBIOGET_VSCREENINFO {
        Some(FbIoctlCmd::GetVarScreenInfo)
    } else if cmd == FBIOPUT_VSCREENINFO {
        Some(FbIoctlCmd::PutVarScreenInfo)
    } else if cmd == FBIOGET_FSCREENINFO {
        Some(FbIoctlCmd::GetFixScreenInfo)
    } else if cmd == FBIOGETCMAP {
        Some(FbIoctlCmd::GetColorMap)
    } else if cmd == FBIOPUTCMAP {
        Some(FbIoctlCmd::PutColorMap)
    } else if cmd == FBIOPAN_DISPLAY {
        Some(FbIoctlCmd::PanDisplay)
    } else if cmd == FBIOBLANK {
        Some(FbIoctlCmd::Blank)
    } else {
        None
    }
}

/// Decodes a request number; an unknown one is not a framebuffer request.
pub fn decode_fb_ioctl(cmd: u32) -> (r: Result<FbIoctlCmd, Errno>)
    ensures
        match fb_ioctl_spec(cmd) {
            Some(c) => r == Ok::<FbIoctlCmd, Errno>(c),
            None => r == Err::<FbIoctlCmd, Errno>(Errno::ENOTTY),
        },
{
    if cmd == FBIOGET_VSCREENINFO {
        Ok(FbIoctlCmd::GetVarScreenInfo)
    } else if cmd == FBIOPUT_VSCREENINFO {
        Ok(FbIoctlCmd::PutVarScreenInfo)
    } else if cmd == FBIOGET_FSCREENINFO {
        Ok(FbIoctlCmd::GetFixScreenInfo)
    } else if cmd == FBIOGETCMAP {
        Ok(FbIoctlCmd::GetColorMap)
    } else if cmd == FBIOPUTCMAP {
        Ok(FbIoctlCmd::PutColorMap)
    } else if cmd == FBIOPAN_DISPLAY {
        Ok(FbIoctlCmd::PanDisplay)
    } else if cmd == FBIOBLANK {
        Ok(FbIoctlCmd::Blank)
    } else {
        Err(Errno::ENOTTY)
    }
}

impl FbBackend {
    /// Answers a blanking request: a DRM scanout accepts it (and keeps
    /// showing), the boot framebuffer cannot blank.
    pub fn blank(&self) -> (r: Result<i32, Errno>)
        ensures
            *self is Drm ==> r == Ok::<i32, Errno>(0),
            *self is Legacy ==> r == Err::<i32, Errno>(Errno::EINVAL),
    {
        if self.is_drm() {
            Ok(0)
        } else {
            Err(Errno::EINVAL)
        }
    }
}

/// A scanout that the framebuffer device can take over.
#[derive(Debug, Clone, Copy)]
pub struct FbdevTarget {
    pub crtc_id: u32,
    pub connector_id: u32,
    pub mode: DrmDisplayMode,
    pub width_mm: u32,
    pub height_mm: u32,
}

/// Whether a DRM device can back the framebuffer device: it must set modes
/// and have dumb buffers.
pub fn fbdev_device_usable(modeset: bool, has_dumb_buffer: bool) -> (r: bool)
    ensures
        r == (modeset && has_dumb_buffer),
{
    modeset && has_dumb_buffer
}

/// What a probed connector offers the framebuffer device on `crtc_id`: a
/// connected display in its first mode, with its physical size.
pub fn fbdev_connector_target(crtc_id: u32, connector_id: u32, snapshot: &DrmConnectorSnapshot) -> (r: Option<
    FbdevTarget,
>)
    ensures
        snapshot.status == DrmConnStatus::Connected && snapshot.display_modes@.len() > 0 ==> (r matches Some(t)
            && t.crtc_id == crtc_id && t.connector_id == connector_id && t.mode == snapshot.display_modes@[0]
            && t.width_mm == snapshot.mm_width && t.height_mm == snapshot.mm_height),
        !(snapshot.status == DrmConnStatus::Connected && snapshot.display_modes@.len() > 0) ==> r is None,
{
    match snapshot.status {
        DrmConnStatus::Connected => {},
        _ => {
            return None;
        },
    }
    if snapshot.display_modes.len() == 0 {
        return None;
    }
    let mode = snapshot.display_modes[0];
    Some(FbdevTarget { crtc_id, connector_id, mode, width_mm: snapshot.mm_width, height_mm: snapshot.mm_height })
}

/// What the search for a scanout knows of one registered DRM device:
/// whether it can back the framebuffer device, its CRTCs and its
/// connectors, in order.
pub struct FbdevCandidate {
    pub usable: bool,
    pub crtc_ids: Vec<u32>,
    pub connector_ids: Vec<u32>,
}

/// Whether connector `c` of device `d` is one the search probes: the device
/// is usable and has a CRTC, and `c` names one of its connectors.
pub open spec fn probe_eligible(devs: Seq<FbdevCandidate>, d: int, c: int) -> bool {
    &&& 0 <= d < devs.len()
    &&& devs[d].usable
    &&& devs[d].crtc_ids@.len() > 0
    &&& 0 <= c < devs[d].connector_ids@.len()
}

/// Whether position (`d1`, `c1`) comes no later than (`d2`, `c2`): devices in
/// order, then connectors in order.
pub open spec fn probe_before_eq(d1: int, c1: int, d2: int, c2: int) -> bool {
    d1 < d2 || (d1 == d2 && c1 <= c2)
}

/// Where the search goes next from (`d`, `c`): the first probed position at
/// or after it, if any.
pub open spec fn next_probe_ok(devs: Seq<FbdevCandidate>, d: int, c: int, r: Option<(usize, usize)>) -> bool {
    match r {
        Some((d2, c2)) => {
            &&& probe_eligible(devs, d2 as int, c2 as int)
            &&& probe_before_eq(d, c, d2 as int, c2 as int)
            &&& forall|d3: int, c3: int|
                probe_before_eq(d, c, d3, c3) && probe_before_eq(d3, c3, d2 as int, c2 as int) && !(d3 == d2 && c3 == c2)
                    ==> !#[trigger] probe_eligible(devs, d3, c3)
        },
        None => forall|d3: int, c3: int| probe_before_eq(d, c, d3, c3) ==> !#[trigger] probe_eligible(devs, d3, c3),
    }
}

/// The next connector the search for a scanout probes, at or after
/// connector `c` of device `d`: devices in order, skipping those that
/// cannot back the framebuffer device or have no CRTC, then their
/// connectors in order.
pub fn fbdev_next_probe(devs: &[FbdevCandidate], d: usize, c: usize) -> (r: Option<(usize, usize)>)
    ensures
        next_probe_ok(devs@, d as int, c as int, r),
{
    if d >= devs.len() {
        return None;
    }
    let mut i: usize = d;
    while i < devs.len()
        invariant
            d <= i <= devs@.len(),
            forall|d3: int, c3: int| probe_before_eq(d as int, c as int, d3, c3) && d3 < i ==> !#[trigger] probe_eligible(devs@, d3, c3),
        decreases devs@.len() - i,
    {
        let start: usize = if i == d { c } else { 0 };
        if devs[i].usable && devs[i].crtc_ids.len() > 0 && start < devs[i].connector_ids.len() {
            proof {
                assert(probe_eligible(devs@, i as int, start as int));
            }
            return Some((i, start));
        }
        i = i + 1;
    }
    None
}

/// The outcome of probing one connector in the search for a scanout.
pub enum FbdevSearch {
    /// Device `device` shows the framebuffer device on `target`.
    Found { device: usize, target: FbdevTarget },
    /// Probe connector `connector` of device `device` next.
    Probe { device: usize, connector: usize },
    /// No device offers a scanout.
    NotFound,
}

/// One step of the search: connector `c` of device `d` was probed and gave
/// `snapshot` (nothing if the probe failed). A connected display with a mode
/// ends the search on the device's first CRTC; otherwise the search goes on
/// after that connector.
pub fn fbdev_search_step(devs: &[FbdevCandidate], d: usize, c: usize, snapshot: Option<&DrmConnectorSnapshot>) -> (r: FbdevSearch)
    requires
        probe_eligible(devs@, d as int, c as int),
    ensures
        match snapshot {
            Some(s) if s.status == DrmConnStatus::Connected && s.display_modes@.len() > 0 => r matches FbdevSearch::Found {
                device,
                target,
            } && device == d && target.crtc_id == devs@[d as int].crtc_ids@[0] && target.connector_id
                == devs@[d as int].connector_ids@[c as int] && target.mode == s.display_modes@[0] && target.width_mm
                == s.mm_width && target.height_mm == s.mm_height,
            _ => match r {
                FbdevSearch::Probe { device, connector } => next_probe_ok(
                    devs@,
                    d as int,
                    c + 1,
                    Some((device, connector)),
                ),
                FbdevSearch::NotFound => next_probe_ok(devs@, d as int, c + 1, None),
                FbdevSearch::Found { .. } => false,
            },
        },
{
    let crtc_id = devs[d].crtc_ids[0];
    let connector_id = devs[d].connector_ids[c];
    let n = devs[d].connector_ids.len();
    assert(c < n);
    if let Some(s) = snapshot {
        if let Some(target) = fbdev_connector_target(crtc_id, connector_id, s) {
            return FbdevSearch::Found { device: d, target };
        }
    }
    match fbdev_next_probe(devs, d, c + 1) {
        Some((device, connector)) => FbdevSearch::Probe { device, connector },
        None => FbdevSearch::NotFound,
    }
}

/// The framebuffer device shown on a DRM scanout: the target's mode, over
/// framebuffer `fb_id` of a buffer with lines of `pitch_bytes`.
pub fn drm_backend(target: &FbdevTarget, fb_id: u32, pitch_bytes: u32, size_bytes: usize) -> (b: FbBackend)
    ensures
        b == (FbBackend::Drm {
            fb_id,
            width: target.mode.hdisplay as u32,
            height: target.mode.vdisplay as u32,
            width_mm: target.width_mm,
            height_mm: target.height_mm,
            pitch_bytes,
            size_bytes,
        }),
{
    FbBackend::Drm {
        fb_id,
        width: target.mode.hdisplay as u32,
        height: target.mode.vdisplay as u32,
        width_mm: target.width_mm,
        height_mm: target.height_mm,
        pitch_bytes,
        size_bytes,
    }
}

/// The colour map of a DRM-backed framebuffer device: a full palette of
/// black entries.
pub fn drm_backend_cmap() -> (c: FbCmap)
    ensures
        c.spec_entries() == Seq::new(MAX_CMAP_SIZE as nat, |i: int| crate::fbdev::zero_entry()),
{
    FbCmap::with_len(MAX_CMAP_SIZE)
}

/// The colour channels of every colour pixel format are packed from bit 0
/// up, blue lowest, then green, then red, then transparency, and together
/// fill the pixel; a grey pixel reports its one intensity byte in all three
/// colour channels.
pub proof fn law_channels_packed(f: PixelFormat)
    ensures
        ({
            let (r, g, b, t) = bitfields_spec(f);
            if f == PixelFormat::Grayscale8 {
                &&& r == (FbBitfield { offset: 0, length: 8, msb_right: 0 })
                &&& g == r
                &&& b == r
                &&& t.length == 0
                &&& nbytes_spec(f) == 1
            } else {
                &&& b.offset == 0
                &&& g.offset == b.length
                &&& r.offset == g.offset + g.length
                &&& b.length > 0 && g.length > 0 && r.length > 0
                &&& t.length > 0 ==> t.offset == r.offset + r.length
                &&& r.offset + r.length + t.length == 8 * nbytes_spec(f)
                &&& r.msb_right == 0 && g.msb_right == 0 && b.msb_right == 0 && t.msb_right == 0
            }
        }),
{
}

/// A DRM-backed screen is reported as 32-bit XRGB: red in bits 16 to 23,
/// green in 8 to 15, blue in 0 to 7, and the top byte as transparency.
pub proof fn law_drm_screen_is_xrgb(b: FbBackend)
    requires
        b is Drm,
    ensures
        var_screen_info_spec(b).bits_per_pixel == 32,
        var_screen_info_spec(b).red == (FbBitfield { offset: 16, length: 8, msb_right: 0 }),
        var_screen_info_spec(b).green == (FbBitfield { offset: 8, length: 8, msb_right: 0 }),
        var_screen_info_spec(b).blue == (FbBitfield { offset: 0, length: 8, msb_right: 0 }),
        var_screen_info_spec(b).transp == (FbBitfield { offset: 24, length: 8, msb_right: 0 }),
{
}

} // verus!

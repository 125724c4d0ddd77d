//! Display modes, display information and pixel formats.
use vstd::prelude::*;

verus! {

/// Length of the name field of a display mode.
pub const DRM_DISPLAY_MODE_LEN: usize = 32;

/// Refresh rate of the fallback display mode.
pub const DRM_DEFAULT_VREFRESH_HZ: u32 = 60;

/// Display mode flags (`DRM_MODE_FLAG_*`).
#[derive(Debug, Clone, Copy, PartialEq, Eq, Structural)]
pub struct DrmModeFlag {
    bits: u32,
}

#[allow(non_snake_case)]
impl DrmModeFlag {
    pub closed spec fn spec_bits(self) -> u32 {
        self.bits
    }

    /// All bits that name a flag.
    pub open spec fn all_bits() -> u32 {
        0x3FFF
    }

    pub fn bits(&self) -> (b: u32)
        ensures
            b == self.spec_bits(),
    {
        self.bits
    }

    /// Keeps the bits of `bits` that name a flag.
    pub fn from_bits_truncate(bits: u32) -> (f: Self)
        ensures
            f.spec_bits() == bits & 0x3FFF,
    {
        DrmModeFlag { bits: bits & 0x3FFF }
    }

    /// Whether every flag of `other` is set in `self`.
    pub fn contains(&self, other: Self) -> (r: bool)
        ensures
            r == (self.spec_bits() & other.spec_bits() == other.spec_bits()),
    {
        self.bits & other.bits == other.bits
    }

    pub fn PHSYNC() -> (f: Self) ensures f.spec_bits() == 1u32 { DrmModeFlag { bits: 1 } }
    pub fn NHSYNC() -> (f: Self) ensures f.spec_bits() == 2u32 { DrmModeFlag { bits: 2 } }
    pub fn PVSYNC() -> (f: Self) ensures f.spec_bits() == 4u32 { DrmModeFlag { bits: 4 } }
    pub fn NVSYNC() -> (f: Self) ensures f.spec_bits() == 8u32 { DrmModeFlag { bits: 8 } }
    pub fn INTERLACE() -> (f: Self) ensures f.spec_bits() == 0x10u32 { DrmModeFlag { bits: 0x10 } }
    pub fn DBLSCAN() -> (f: Self) ensures f.spec_bits() == 0x20u32 { DrmModeFlag { bits: 0x20 } }
    pub fn CSYNC() -> (f: Self) ensures f.spec_bits() == 0x40u32 { DrmModeFlag { bits: 0x40 } }
    pub fn PCSYNC() -> (f: Self) ensures f.spec_bits() == 0x80u32 { DrmModeFlag { bits: 0x80 } }
    pub fn NCSYNC() -> (f: Self) ensures f.spec_bits() == 0x100u32 { DrmModeFlag { bits: 0x100 } }
    pub fn HSKEW() -> (f: Self) ensures f.spec_bits() == 0x200u32 { DrmModeFlag { bits: 0x200 } }
    pub fn BCAST() -> (f: Self) ensures f.spec_bits() == 0x400u32 { DrmModeFlag { bits: 0x400 } }
    pub fn PIXMUX() -> (f: Self) ensures f.spec_bits() == 0x800u32 { DrmModeFlag { bits: 0x800 } }
    pub fn DBLCLK() -> (f: Self) ensures f.spec_bits() == 0x1000u32 { DrmModeFlag { bits: 0x1000 } }
    pub fn CLKDIV2() -> (f: Self) ensures f.spec_bits() == 0x2000u32 { DrmModeFlag { bits: 0x2000 } }
}

/// Display mode types (`DRM_MODE_TYPE_*`).
#[derive(Debug, Clone, Copy, PartialEq, Eq, Structural)]
pub struct DrmModeType {
    bits: u32,
}

#[allow(non_snake_case)]
impl DrmModeType {
    pub closed spec fn spec_bits(self) -> u32 {
        self.bits
    }

    pub fn bits(&self) -> (b: u32)
        ensures
            b == self.spec_bits(),
    {
        self.bits
    }

    pub fn BUILTIN() -> (f: Self) ensures f.spec_bits() == 1u32 { DrmModeType { bits: 1 } }
    pub fn CLOCK_C() -> (f: Self) ensures f.spec_bits() == 3u32 { DrmModeType { bits: 3 } }
    pub fn CRTC_C() -> (f: Self) ensures f.spec_bits() == 5u32 { DrmModeType { bits: 5 } }
    pub fn PREFERRED() -> (f: Self) ensures f.spec_bits() == 8u32 { DrmModeType { bits: 8 } }
    pub fn DEFAULT() -> (f: Self) ensures f.spec_bits() == 0x10u32 { DrmModeType { bits: 0x10 } }
    pub fn USERDEF() -> (f: Self) ensures f.spec_bits() == 0x20u32 { DrmModeType { bits: 0x20 } }
    pub fn DRIVER() -> (f: Self) ensures f.spec_bits() == 0x40u32 { DrmModeType { bits: 0x40 } }
}

/// The ASCII decimal digits of `n`, most significant first.
pub open spec fn decimal_digits(n: nat) -> Seq<u8>
    decreases n,
{
    if n < 10 {
        seq![(n + 48) as u8]
    } else {
        decimal_digits(n / 10).push((n % 10 + 48) as u8)
    }
}

/// The name a simple mode of `width` x `height` gets: the two numbers in
/// decimal joined by `x`, padded with zero bytes.
pub open spec fn mode_name_spec(width: u16, height: u16) -> Seq<u8> {
    let text = decimal_digits(width as nat).push(120u8) + decimal_digits(height as nat);
    text + Seq::new((32 - text.len()) as nat, |i: int| 0u8)
}

/// A display timing mode.
#[derive(Debug, Clone, Copy, Eq)]
pub struct DrmDisplayMode {
    pub clock: u32,
    pub hdisplay: u16,
    pub hsync_start: u16,
    pub hsync_end: u16,
    pub htotal: u16,
    pub hskew: u16,
    pub vdisplay: u16,
    pub vsync_start: u16,
    pub vsync_end: u16,
    pub vtotal: u16,
    pub vscan: u16,
    pub flags: u32,
    pub type_: u32,
    pub name: [u8; 32],
}

/// Whether two name fields hold the same bytes.
fn names_equal(a: &[u8; 32], b: &[u8; 32]) -> (r: bool)
    ensures
        r == (*a == *b),
{
    let mut i: usize = 0;
    while i < 32
        invariant
            i <= 32,
            forall|j: int| 0 <= j < i ==> a@[j] == b@[j],
        decreases 32 - i,
    {
        if a[i] != b[i] {
            return false;
        }
        i = i + 1;
    }
    assert(a@ =~= b@);
    assert(*a == *b);
    true
}

impl PartialEq for DrmDisplayMode {
    fn eq(&self, other: &Self) -> (r: bool) {
        self.clock == other.clock && self.hdisplay == other.hdisplay && self.hsync_start
            == other.hsync_start && self.hsync_end == other.hsync_end && self.htotal == other.htotal
            && self.hskew == other.hskew && self.vdisplay == other.vdisplay && self.vsync_start
            == other.vsync_start && self.vsync_end == other.vsync_end && self.vtotal == other.vtotal
            && self.vscan == other.vscan && self.flags == other.flags && self.type_ == other.type_
            && names_equal(&self.name, &other.name)
    }
}

impl vstd::std_specs::cmp::PartialEqSpecImpl for DrmDisplayMode {
    open spec fn obeys_eq_spec() -> bool {
        true
    }

    open spec fn eq_spec(&self, other: &DrmDisplayMode) -> bool {
        *self == *other
    }
}

proof fn lemma_decimal_len(n: nat)
    ensures
        decimal_digits(n).len() >= 1,
        n < 10 ==> decimal_digits(n).len() == 1,
        n < 100 ==> decimal_digits(n).len() <= 2,
        n < 1000 ==> decimal_digits(n).len() <= 3,
        n < 10000 ==> decimal_digits(n).len() <= 4,
        n < 100000 ==> decimal_digits(n).len() <= 5,
    decreases n,
{
    if n >= 10 {
        lemma_decimal_len(n / 10);
    }
}

/// Writes the decimal digits of `n` into `buf` from `pos` on; returns the
/// position after the last digit.
fn write_decimal(buf: &mut [u8; 32], pos: usize, n: u16) -> (end: usize)
    requires
        pos + 5 <= 32,
    ensures
        end == pos + decimal_digits(n as nat).len(),
        end <= pos + 5,
        forall|i: int| 0 <= i < pos ==> final(buf)@[i] == old(buf)@[i],
        forall|i: int| end <= i < 32 ==> final(buf)@[i] == old(buf)@[i],
        final(buf)@.subrange(pos as int, end as int) == decimal_digits(n as nat),
    decreases n,
{
    proof {
        lemma_decimal_len(n as nat);
    }
    if n < 10 {
        buf[pos] = (n as u8) + 48;
        assert(buf@.subrange(pos as int, pos + 1) =~= decimal_digits(n as nat));
        pos + 1
    } else {
        let mid = write_decimal(buf, pos, n / 10);
        proof {
            lemma_decimal_len((n / 10) as nat);
        }
        let ghost before = buf@;
        buf[mid] = ((n % 10) as u8) + 48;
        assert(buf@.subrange(pos as int, mid + 1) =~= before.subrange(pos as int, mid as int).push(
            ((n % 10) + 48) as u8));
        mid + 1
    }
}

/// Builds the name of a simple `width` x `height` mode.
fn mode_name(width: u16, height: u16) -> (name: [u8; 32])
    ensures
        name@ == mode_name_spec(width, height),
{
    let mut name = [0u8; 32];
    assert(name@ =~= Seq::new(32, |i: int| 0u8));
    let mid = write_decimal(&mut name, 0, width);
    name[mid] = 120u8;
    let ghost before = name@;
    let end = write_decimal(&mut name, mid + 1, height);
    proof {
        lemma_decimal_len(width as nat);
        lemma_decimal_len(height as nat);
        let text = decimal_digits(width as nat).push(120u8) + decimal_digits(height as nat);
        assert(name@.subrange(0, mid as int) =~= decimal_digits(width as nat));
        assert(name@ =~= text + Seq::new((32 - text.len()) as nat, |i: int| 0u8));
    }
    name
}

impl Default for DrmDisplayMode {
    fn default() -> (mode: Self)
        ensures
            mode == DrmDisplayMode::simple_mode_spec(1280, 800, 60),
    {
        Self::new(1280, 800, DRM_DEFAULT_VREFRESH_HZ)
    }
}

impl DrmDisplayMode {
    /// The simple fixed-refresh mode of `width` x `height`.
    pub open spec fn simple_mode_spec(width: u16, height: u16, vrefresh_hz: u32) -> DrmDisplayMode {
        DrmDisplayMode {
            clock: (width * height * vrefresh_hz / 1000) as u32,
            hdisplay: width,
            hsync_start: width,
            hsync_end: width,
            htotal: width,
            hskew: 0,
            vdisplay: height,
            vsync_start: height,
            vsync_end: height,
            vtotal: height,
            vscan: 0,
            flags: 0,
            type_: 0x40,
            name: arbitrary_name_for(width, height),
        }
    }

    /// Creates a simple fixed-refresh display mode.
    ///
    /// This follows the `DRM_SIMPLE_MODE()` style: one resolution and one
    /// refresh rate give a fallback mode, not a detailed timing mode.
    pub fn new(width: u16, height: u16, vrefresh_hz: u32) -> (mode: Self)
        requires
            width * height * vrefresh_hz <= u32::MAX,
        ensures
            mode == Self::simple_mode_spec(width, height, vrefresh_hz),
            mode.name@ == mode_name_spec(width, height),
    {
        let name = mode_name(width, height);
        proof {
            lemma_name_determined(width, height, name);
            assert(width * height <= 0xFFFF * 0xFFFF) by (nonlinear_arith)
                requires width <= 0xFFFF, height <= 0xFFFF;
        }
        let area = (width as u32) * (height as u32);
        let clock = area * vrefresh_hz / 1000;
        Self {
            clock,
            hdisplay: width,
            hsync_start: width,
            hsync_end: width,
            htotal: width,
            hskew: 0,
            vdisplay: height,
            vsync_start: height,
            vsync_end: height,
            vtotal: height,
            vscan: 0,
            flags: 0,
            type_: DrmModeType::DRIVER().bits(),
            name,
        }
    }

    pub open spec fn spec_hdisplay(self) -> u16 {
        self.hdisplay
    }

    pub open spec fn spec_vdisplay(self) -> u16 {
        self.vdisplay
    }

    /// Returns the number of visible pixels per line.
    pub fn hdisplay(&self) -> (w: u16)
        ensures
            w == self.hdisplay,
    {
        self.hdisplay
    }

    /// Returns the number of visible lines.
    pub fn vdisplay(&self) -> (h: u16)
        ensures
            h == self.vdisplay,
    {
        self.vdisplay
    }

    /// The refresh rate in Hz, rounded to nearest, as computed from the
    /// timings: the pixel clock over the frame size, doubled for interlaced
    /// modes and halved for double-scan modes and scaled by `vscan`.
    pub open spec fn vrefresh_spec(self) -> u32 {
        if self.htotal == 0 || self.vtotal == 0 {
            0
        } else {
            let num: int = if self.flags & 0x10 == 0x10 { self.clock * 2 } else { self.clock as int };
            let den1: int = if self.flags & 0x20 == 0x20 {
                self.htotal * self.vtotal * 2
            } else {
                self.htotal * self.vtotal
            };
            let den: int = if self.vscan > 1 { den1 * self.vscan } else { den1 };
            ((num * 1000 + den / 2) / den) as u32
        }
    }

    /// Returns the refresh rate in Hz computed from the timings.
    pub fn vrefresh(&self) -> (hz: u32)
        ensures
            hz == self.vrefresh_spec(),
    {
        if self.htotal == 0 || self.vtotal == 0 {
            return 0;
        }
        let mut num = self.clock as u64;
        proof {
            assert((self.htotal as int) * (self.vtotal as int) <= 0xFFFF * 0xFFFF) by (nonlinear_arith)
                requires self.htotal <= 0xFFFF, self.vtotal <= 0xFFFF;
            assert((self.htotal as int) * (self.vtotal as int) > 0) by (nonlinear_arith)
                requires self.htotal > 0, self.vtotal > 0;
        }
        let mut den = (self.htotal as u64) * (self.vtotal as u64);
        let flags = DrmModeFlag::from_bits_truncate(self.flags);
        let ghost f = self.flags;
        if flags.contains(DrmModeFlag::INTERLACE()) {
            assert(f & 0x10 == 0x10) by (bit_vector)
                requires (f & 0x3FFF) & 0x10 == 0x10;
            num = num * 2;
        } else {
            assert(f & 0x10 != 0x10) by (bit_vector)
                requires (f & 0x3FFF) & 0x10 != 0x10;
        }
        if flags.contains(DrmModeFlag::DBLSCAN()) {
            assert(f & 0x20 == 0x20) by (bit_vector)
                requires (f & 0x3FFF) & 0x20 == 0x20;
            den = den * 2;
        } else {
            assert(f & 0x20 != 0x20) by (bit_vector)
                requires (f & 0x3FFF) & 0x20 != 0x20;
        }
        if self.vscan > 1 {
            proof {
                assert((den as int) * (self.vscan as int) <= 0xFFFF * 0xFFFF * 2 * 0xFFFF) by (nonlinear_arith)
                    requires den <= 0xFFFF * 0xFFFF * 2, self.vscan <= 0xFFFF;
                assert((den as int) * (self.vscan as int) > 0) by (nonlinear_arith)
                    requires den > 0, self.vscan > 1;
            }
            den = den * (self.vscan as u64);
        }
        ((num * 1000 + den / 2) / den) as u32
    }

    /// Converts this mode to its userspace representation.
    pub fn to_mode_info(&self) -> (info: DrmModeModeInfo)
        ensures
            info == mode_to_info_spec(*self),
    {
        DrmModeModeInfo {
            clock: self.clock,
            hdisplay: self.hdisplay,
            hsync_start: self.hsync_start,
            hsync_end: self.hsync_end,
            htotal: self.htotal,
            hskew: self.hskew,
            vdisplay: self.vdisplay,
            vsync_start: self.vsync_start,
            vsync_end: self.vsync_end,
            vtotal: self.vtotal,
            vscan: self.vscan,
            vrefresh: self.vrefresh(),
            flags: self.flags,
            type_: self.type_,
            name: self.name,
        }
    }
}

/// The name bytes of the simple mode of `width` x `height`.
pub closed spec fn arbitrary_name_for(width: u16, height: u16) -> [u8; 32] {
    choose|name: [u8; 32]| name@ == mode_name_spec(width, height)
}

proof fn lemma_name_determined(width: u16, height: u16, name: [u8; 32])
    requires
        name@ == mode_name_spec(width, height),
    ensures
        arbitrary_name_for(width, height) == name,
{
    let other = arbitrary_name_for(width, height);
    assert(other@ == mode_name_spec(width, height));
    assert(other@ =~= name@);
    assert(other == name);
}

/// The userspace form of a display mode.
pub open spec fn mode_to_info_spec(m: DrmDisplayMode) -> DrmModeModeInfo {
    DrmModeModeInfo {
        clock: m.clock,
        hdisplay: m.hdisplay,
        hsync_start: m.hsync_start,
        hsync_end: m.hsync_end,
        htotal: m.htotal,
        hskew: m.hskew,
        vdisplay: m.vdisplay,
        vsync_start: m.vsync_start,
        vsync_end: m.vsync_end,
        vtotal: m.vtotal,
        vscan: m.vscan,
        vrefresh: m.vrefresh_spec(),
        flags: m.flags,
        type_: m.type_,
        name: m.name,
    }
}

/// Subpixel layout of a display.
#[derive(Debug, Clone, Copy, PartialEq, Eq, Structural)]
pub enum SubpixelOrder {
    Unknown,
    HorizontalRgb,
    HorizontalBgr,
    VerticalRgb,
    VerticalBgr,
    NoSubpixel,
}

impl SubpixelOrder {
    /// The `DRM_MODE_SUBPIXEL_*` number of this order.
    pub open spec fn spec_value(self) -> u32 {
        match self {
            SubpixelOrder::Unknown => 0,
            SubpixelOrder::HorizontalRgb => 1,
            SubpixelOrder::HorizontalBgr => 2,
            SubpixelOrder::VerticalRgb => 3,
            SubpixelOrder::VerticalBgr => 4,
            SubpixelOrder::NoSubpixel => 5,
        }
    }

    pub fn value(self) -> (v: u32)
        ensures
            v == self.spec_value(),
    {
        match self {
            SubpixelOrder::Unknown => 0,
            SubpixelOrder::HorizontalRgb => 1,
            SubpixelOrder::HorizontalBgr => 2,
            SubpixelOrder::VerticalRgb => 3,
            SubpixelOrder::VerticalBgr => 4,
            SubpixelOrder::NoSubpixel => 5,
        }
    }
}

/// Physical properties of a display.
#[derive(Debug, Clone, Copy, PartialEq, Eq, Structural)]
pub struct DrmDisplayInfo {
    pub mm_width: u32,
    pub mm_height: u32,
    pub subpixel_order: SubpixelOrder,
}

impl Default for DrmDisplayInfo {
    fn default() -> (info: Self)
        ensures
            info.mm_width == 0,
            info.mm_height == 0,
            info.subpixel_order == SubpixelOrder::Unknown,
    {
        Self { mm_width: 0, mm_height: 0, subpixel_order: SubpixelOrder::Unknown }
    }
}

impl DrmDisplayInfo {
    pub fn new(mm_width: u32, mm_height: u32, subpixel_order: SubpixelOrder) -> (info: Self)
        ensures
            info == (DrmDisplayInfo { mm_width, mm_height, subpixel_order }),
    {
        Self { mm_width, mm_height, subpixel_order }
    }

    pub fn mm_width(&self) -> (w: u32)
        ensures
            w == self.mm_width,
    {
        self.mm_width
    }

    pub fn mm_height(&self) -> (h: u32)
        ensures
            h == self.mm_height,
    {
        self.mm_height
    }

    /// Returns the `DRM_MODE_SUBPIXEL_*` number of the subpixel order.
    pub fn subpixel_order(&self) -> (order: u32)
        ensures
            order == self.subpixel_order.spec_value(),
    {
        self.subpixel_order.value()
    }
}

/// The userspace representation of a display mode (`struct drm_mode_modeinfo`).
#[derive(Debug, Clone, Copy, PartialEq, Eq)]
pub struct DrmModeModeInfo {
    pub clock: u32,
    pub hdisplay: u16,
    pub hsync_start: u16,
    pub hsync_end: u16,
    pub htotal: u16,
    pub hskew: u16,
    pub vdisplay: u16,
    pub vsync_start: u16,
    pub vsync_end: u16,
    pub vtotal: u16,
    pub vscan: u16,
    pub vrefresh: u32,
    pub flags: u32,
    pub type_: u32,
    pub name: [u8; 32],
}

impl DrmModeModeInfo {
    /// Converts a userspace mode into a display mode; the refresh field is
    /// dropped since a display mode derives it from the timings.
    pub fn to_display_mode(&self) -> (mode: DrmDisplayMode)
        ensures
            mode == info_to_mode_spec(*self),
    {
        DrmDisplayMode {
            clock: self.clock,
            hdisplay: self.hdisplay,
            hsync_start: self.hsync_start,
            hsync_end: self.hsync_end,
            htotal: self.htotal,
            hskew: self.hskew,
            vdisplay: self.vdisplay,
            vsync_start: self.vsync_start,
            vsync_end: self.vsync_end,
            vtotal: self.vtotal,
            vscan: self.vscan,
            flags: self.flags,
            type_: self.type_,
            name: self.name,
        }
    }
}

/// The display mode a userspace mode describes.
pub open spec fn info_to_mode_spec(i: DrmModeModeInfo) -> DrmDisplayMode {
    DrmDisplayMode {
        clock: i.clock,
        hdisplay: i.hdisplay,
        hsync_start: i.hsync_start,
        hsync_end: i.hsync_end,
        htotal: i.htotal,
        hskew: i.hskew,
        vdisplay: i.vdisplay,
        vsync_start: i.vsync_start,
        vsync_end: i.vsync_end,
        vtotal: i.vtotal,
        vscan: i.vscan,
        flags: i.flags,
        type_: i.type_,
        name: i.name,
    }
}

impl From<DrmDisplayMode> for DrmModeModeInfo {
    fn from(mode: DrmDisplayMode) -> (info: Self) {
        mode.to_mode_info()
    }
}

impl vstd::std_specs::convert::FromSpecImpl<DrmDisplayMode> for DrmModeModeInfo {
    open spec fn obeys_from_spec() -> bool {
        true
    }

    open spec fn from_spec(mode: DrmDisplayMode) -> DrmModeModeInfo {
        mode_to_info_spec(mode)
    }
}

impl From<DrmModeModeInfo> for DrmDisplayMode {
    fn from(info: DrmModeModeInfo) -> (mode: Self) {
        info.to_display_mode()
    }
}

impl vstd::std_specs::convert::FromSpecImpl<DrmModeModeInfo> for DrmDisplayMode {
    open spec fn obeys_from_spec() -> bool {
        true
    }

    open spec fn from_spec(info: DrmModeModeInfo) -> DrmDisplayMode {
        info_to_mode_spec(info)
    }
}

/// Converting a display mode to its userspace form and back gives the same
/// mode.
pub proof fn law_mode_info_round_trip(m: DrmDisplayMode)
    ensures
        info_to_mode_spec(mode_to_info_spec(m)) == m,
{
}

/// The four-character code of a pixel format.
pub open spec fn fourcc_spec(a: u8, b: u8, c: u8, d: u8) -> u32 {
    (a as u32) | ((b as u32) << 8) | ((c as u32) << 16) | ((d as u32) << 24)
}

/// Packs four characters into a little-endian format code.
pub fn fourcc_code(a: u8, b: u8, c: u8, d: u8) -> (code: u32)
    ensures
        code == fourcc_spec(a, b, c, d),
{
    (a as u32) | ((b as u32) << 8) | ((c as u32) << 16) | ((d as u32) << 24)
}

/// Pixel formats of framebuffers and planes.
#[derive(Debug, Clone, Copy, PartialEq, Eq, Structural)]
pub enum DrmDisplayFormat {
    XRGB8888,
    ARGB8888,
    XBGR8888,
    RGBX8888,
    BGRX8888,
    C8,
    XRGB1555,
    RGB565,
    RGB888,
    XRGB2101010,
    Unknown,
}

impl DrmDisplayFormat {
    /// The four-character code of the format.
    pub open spec fn spec_code(self) -> u32 {
        match self {
            DrmDisplayFormat::XRGB8888 => fourcc_spec(88, 82, 50, 52),
            DrmDisplayFormat::ARGB8888 => fourcc_spec(65, 82, 50, 52),
            DrmDisplayFormat::XBGR8888 => fourcc_spec(88, 66, 50, 52),
            DrmDisplayFormat::RGBX8888 => fourcc_spec(82, 88, 50, 52),
            DrmDisplayFormat::BGRX8888 => fourcc_spec(66, 88, 50, 52),
            DrmDisplayFormat::C8 => fourcc_spec(67, 56, 32, 32),
            DrmDisplayFormat::XRGB1555 => fourcc_spec(88, 82, 49, 53),
            DrmDisplayFormat::RGB565 => fourcc_spec(82, 71, 49, 54),
            DrmDisplayFormat::RGB888 => fourcc_spec(82, 71, 50, 52),
            DrmDisplayFormat::XRGB2101010 => fourcc_spec(88, 82, 51, 48),
            DrmDisplayFormat::Unknown => fourcc_spec(32, 32, 32, 32),
        }
    }

    /// Returns the four-character code of the format.
    pub fn code(self) -> (c: u32)
        ensures
            c == self.spec_code(),
    {
        match self {
            DrmDisplayFormat::XRGB8888 => fourcc_code(88u8, 82u8, 50u8, 52u8),
            DrmDisplayFormat::ARGB8888 => fourcc_code(65u8, 82u8, 50u8, 52u8),
            DrmDisplayFormat::XBGR8888 => fourcc_code(88u8, 66u8, 50u8, 52u8),
            DrmDisplayFormat::RGBX8888 => fourcc_code(82u8, 88u8, 50u8, 52u8),
            DrmDisplayFormat::BGRX8888 => fourcc_code(66u8, 88u8, 50u8, 52u8),
            DrmDisplayFormat::C8 => fourcc_code(67u8, 56u8, 32u8, 32u8),
            DrmDisplayFormat::XRGB1555 => fourcc_code(88u8, 82u8, 49u8, 53u8),
            DrmDisplayFormat::RGB565 => fourcc_code(82u8, 71u8, 49u8, 54u8),
            DrmDisplayFormat::RGB888 => fourcc_code(82u8, 71u8, 50u8, 52u8),
            DrmDisplayFormat::XRGB2101010 => fourcc_code(88u8, 82u8, 51u8, 48u8),
            DrmDisplayFormat::Unknown => fourcc_code(32u8, 32u8, 32u8, 32u8),
        }
    }

    /// Bytes per pixel of the single-plane packed formats.
    pub open spec fn spec_bytes_per_pixel(self) -> Option<usize> {
        match self {
            DrmDisplayFormat::XRGB8888 | DrmDisplayFormat::ARGB8888 | DrmDisplayFormat::XBGR8888
            | DrmDisplayFormat::RGBX8888 | DrmDisplayFormat::BGRX8888
            | DrmDisplayFormat::XRGB2101010 => Some(4),
            DrmDisplayFormat::RGB888 => Some(3),
            DrmDisplayFormat::XRGB1555 | DrmDisplayFormat::RGB565 => Some(2),
            DrmDisplayFormat::C8 => Some(1),
            DrmDisplayFormat::Unknown => None,
        }
    }

    /// Returns the bytes per pixel of the format, if it is known.
    pub fn bytes_per_pixel(self) -> (n: Option<usize>)
        ensures
            n == self.spec_bytes_per_pixel(),
    {
        match self {
            DrmDisplayFormat::XRGB8888 | DrmDisplayFormat::ARGB8888 | DrmDisplayFormat::XBGR8888
            | DrmDisplayFormat::RGBX8888 | DrmDisplayFormat::BGRX8888
            | DrmDisplayFormat::XRGB2101010 => Some(4),
            DrmDisplayFormat::RGB888 => Some(3),
            DrmDisplayFormat::XRGB1555 | DrmDisplayFormat::RGB565 => Some(2),
            DrmDisplayFormat::C8 => Some(1),
            DrmDisplayFormat::Unknown => None,
        }
    }

    /// The format whose code is `code`, if any.
    pub open spec fn spec_from_code(code: u32) -> Option<DrmDisplayFormat> {
        if code == DrmDisplayFormat::XRGB8888.spec_code() { Some(DrmDisplayFormat::XRGB8888) }
        else if code == DrmDisplayFormat::ARGB8888.spec_code() { Some(DrmDisplayFormat::ARGB8888) }
        else if code == DrmDisplayFormat::XBGR8888.spec_code() { Some(DrmDisplayFormat::XBGR8888) }
        else if code == DrmDisplayFormat::RGBX8888.spec_code() { Some(DrmDisplayFormat::RGBX8888) }
        else if code == DrmDisplayFormat::BGRX8888.spec_code() { Some(DrmDisplayFormat::BGRX8888) }
        else if code == DrmDisplayFormat::C8.spec_code() { Some(DrmDisplayFormat::C8) }
        else if code == DrmDisplayFormat::XRGB1555.spec_code() { Some(DrmDisplayFormat::XRGB1555) }
        else if code == DrmDisplayFormat::RGB565.spec_code() { Some(DrmDisplayFormat::RGB565) }
        else if code == DrmDisplayFormat::RGB888.spec_code() { Some(DrmDisplayFormat::RGB888) }
        else if code == DrmDisplayFormat::XRGB2101010.spec_code() { Some(DrmDisplayFormat::XRGB2101010) }
        else if code == DrmDisplayFormat::Unknown.spec_code() { Some(DrmDisplayFormat::Unknown) }
        else { None }
    }

    /// Returns the format whose four-character code is `code`.
    pub fn from_code(code: u32) -> (f: Option<DrmDisplayFormat>)
        ensures
            f == Self::spec_from_code(code),
    {
        let all = [
            DrmDisplayFormat::XRGB8888,
            DrmDisplayFormat::ARGB8888,
            DrmDisplayFormat::XBGR8888,
            DrmDisplayFormat::RGBX8888,
            DrmDisplayFormat::BGRX8888,
            DrmDisplayFormat::C8,
            DrmDisplayFormat::XRGB1555,
            DrmDisplayFormat::RGB565,
            DrmDisplayFormat::RGB888,
            DrmDisplayFormat::XRGB2101010,
            DrmDisplayFormat::Unknown,
        ];
        if code == all[0].code() { Some(all[0]) }
        else if code == all[1].code() { Some(all[1]) }
        else if code == all[2].code() { Some(all[2]) }
        else if code == all[3].code() { Some(all[3]) }
        else if code == all[4].code() { Some(all[4]) }
        else if code == all[5].code() { Some(all[5]) }
        else if code == all[6].code() { Some(all[6]) }
        else if code == all[7].code() { Some(all[7]) }
        else if code == all[8].code() { Some(all[8]) }
        else if code == all[9].code() { Some(all[9]) }
        else if code == all[10].code() { Some(all[10]) }
        else { None }
    }
}

/// The four-character codes of the formats are those of the DRM
/// interface: each packs the letters of its name, first letter lowest.
pub proof fn law_format_codes()
    ensures
        DrmDisplayFormat::XRGB8888.spec_code() == 0x34325258u32,
        DrmDisplayFormat::ARGB8888.spec_code() == 0x34325241u32,
        DrmDisplayFormat::XBGR8888.spec_code() == 0x34324258u32,
        DrmDisplayFormat::RGBX8888.spec_code() == 0x34325852u32,
        DrmDisplayFormat::BGRX8888.spec_code() == 0x34325842u32,
        DrmDisplayFormat::C8.spec_code() == 0x20203843u32,
        DrmDisplayFormat::XRGB1555.spec_code() == 0x35315258u32,
        DrmDisplayFormat::RGB565.spec_code() == 0x36314752u32,
        DrmDisplayFormat::RGB888.spec_code() == 0x34324752u32,
        DrmDisplayFormat::XRGB2101010.spec_code() == 0x30335258u32,
        DrmDisplayFormat::Unknown.spec_code() == 0x20202020u32,
{
    assert(fourcc_spec(88, 82, 50, 52) == 0x34325258u32 && fourcc_spec(65, 82, 50, 52) == 0x34325241u32
        && fourcc_spec(88, 66, 50, 52) == 0x34324258u32 && fourcc_spec(82, 88, 50, 52) == 0x34325852u32
        && fourcc_spec(66, 88, 50, 52) == 0x34325842u32 && fourcc_spec(67, 56, 32, 32) == 0x20203843u32
        && fourcc_spec(88, 82, 49, 53) == 0x35315258u32 && fourcc_spec(82, 71, 49, 54) == 0x36314752u32
        && fourcc_spec(82, 71, 50, 52) == 0x34324752u32 && fourcc_spec(88, 82, 51, 48) == 0x30335258u32
        && fourcc_spec(32, 32, 32, 32) == 0x20202020u32) by (bit_vector);
}

/// Decoding a format's code gives back that format, and a decoded format
/// has the code it was decoded from.
pub proof fn law_format_code_round_trip(f: DrmDisplayFormat, code: u32)
    ensures
        DrmDisplayFormat::spec_from_code(f.spec_code()) == Some(f),
        DrmDisplayFormat::spec_from_code(code) matches Some(g) ==> g.spec_code() == code,
{
    law_format_codes();
}

} // verus!

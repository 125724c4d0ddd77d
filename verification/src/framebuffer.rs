//! Framebuffers: pixel memory described for scan-out.
use vstd::prelude::*;

use crate::display::DrmDisplayFormat;
use crate::error::DrmError;

verus! {

/// Most memory planes a framebuffer can have.
pub const DRM_FORMAT_MAX_PLANES: usize = 4;

/// A framebuffer: its size and format, and for each memory plane its pitch,
/// offset, modifier and backing GEM object, named by its key.
#[derive(Debug, Clone, Copy)]
pub struct DrmFramebuffer {
    width: u32,
    height: u32,
    pixel_format: DrmDisplayFormat,
    flags: u32,
    pitches: [u32; 4],
    offsets: [u32; 4],
    modifiers: [u64; 4],
    gem_objects: [Option<u64>; 4],
}

impl DrmFramebuffer {
    pub closed spec fn spec_width(&self) -> u32 {
        self.width
    }

    pub closed spec fn spec_height(&self) -> u32 {
        self.height
    }

    pub closed spec fn spec_pixel_format(&self) -> DrmDisplayFormat {
        self.pixel_format
    }

    pub closed spec fn spec_flags(&self) -> u32 {
        self.flags
    }

    pub closed spec fn spec_pitches(&self) -> Seq<u32> {
        self.pitches@
    }

    pub closed spec fn spec_offsets(&self) -> Seq<u32> {
        self.offsets@
    }

    pub closed spec fn spec_modifiers(&self) -> Seq<u64> {
        self.modifiers@
    }

    pub closed spec fn spec_gem_objects(&self) -> Seq<Option<u64>> {
        self.gem_objects@
    }

    /// Whether memory plane `i` is backed by a GEM object.
    pub open spec fn has_plane(&self, i: int) -> bool {
        0 <= i < 4 && self.spec_gem_objects()[i] is Some
    }

    /// Creates a framebuffer; it needs a size, a known format, and a first
    /// memory plane with a pitch and a GEM object.
    pub fn new(
        width: u32,
        height: u32,
        pixel_format: DrmDisplayFormat,
        flags: u32,
        pitches: [u32; 4],
        offsets: [u32; 4],
        modifiers: [u64; 4],
        gems: [Option<u64>; 4],
    ) -> (r: Result<Self, DrmError>)
        ensures
            match r {
                Ok(fb) => {
                    &&& width != 0 && height != 0 && pixel_format != DrmDisplayFormat::Unknown
                    &&& pitches@[0] != 0 && gems@[0] is Some
                    &&& fb.spec_width() == width && fb.spec_height() == height
                    &&& fb.spec_pixel_format() == pixel_format && fb.spec_flags() == flags
                    &&& fb.spec_pitches() == pitches@ && fb.spec_offsets() == offsets@
                    &&& fb.spec_modifiers() == modifiers@ && fb.spec_gem_objects() == gems@
                },
                Err(e) => e == DrmError::Invalid && (width == 0 || height == 0 || pixel_format
                    == DrmDisplayFormat::Unknown || pitches@[0] == 0 || gems@[0] is None),
            },
    {
        if width == 0 || height == 0 || pixel_format == DrmDisplayFormat::Unknown {
            return Err(DrmError::Invalid);
        }
        if pitches[0] == 0 || gems[0].is_none() {
            return Err(DrmError::Invalid);
        }
        Ok(DrmFramebuffer { width, height, pixel_format, flags, pitches, offsets, modifiers, gem_objects: gems })
    }

    pub fn width(&self) -> (w: u32)
        ensures
            w == self.spec_width(),
    {
        self.width
    }

    pub fn height(&self) -> (h: u32)
        ensures
            h == self.spec_height(),
    {
        self.height
    }

    pub fn pixel_format(&self) -> (f: DrmDisplayFormat)
        ensures
            f == self.spec_pixel_format(),
    {
        self.pixel_format
    }

    pub fn flags(&self) -> (f: u32)
        ensures
            f == self.spec_flags(),
    {
        self.flags
    }

    /// The pitch of memory plane `plane_index`, if that plane is backed.
    pub fn pitch(&self, plane_index: usize) -> (p: Option<u32>)
        ensures
            p == (if self.has_plane(plane_index as int) {
                Some(self.spec_pitches()[plane_index as int])
            } else {
                None
            }),
    {
        if plane_index < 4 && self.gem_objects[plane_index].is_some() {
            Some(self.pitches[plane_index])
        } else {
            None
        }
    }

    /// The offset of memory plane `plane_index`, if that plane is backed.
    pub fn offset(&self, plane_index: usize) -> (o: Option<u32>)
        ensures
            o == (if self.has_plane(plane_index as int) {
                Some(self.spec_offsets()[plane_index as int])
            } else {
                None
            }),
    {
        if plane_index < 4 && self.gem_objects[plane_index].is_some() {
            Some(self.offsets[plane_index])
        } else {
            None
        }
    }

    /// The modifier of memory plane `plane_index`, if that plane is backed.
    pub fn modifier(&self, plane_index: usize) -> (m: Option<u64>)
        ensures
            m == (if self.has_plane(plane_index as int) {
                Some(self.spec_modifiers()[plane_index as int])
            } else {
                None
            }),
    {
        if plane_index < 4 && self.gem_objects[plane_index].is_some() {
            Some(self.modifiers[plane_index])
        } else {
            None
        }
    }

    /// The GEM object backing memory plane `plane_index`, if any.
    pub fn gem_object(&self, plane_index: usize) -> (g: Option<u64>)
        ensures
            g == (if 0 <= plane_index < 4 {
                self.spec_gem_objects()[plane_index as int]
            } else {
                None
            }),
    {
        if plane_index < 4 {
            self.gem_objects[plane_index]
        } else {
            None
        }
    }
}

} // verus!

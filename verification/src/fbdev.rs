//! The boot framebuffer: its pixel formats, its software colour map, the
//! RAM-backed fallback, and the choice between the two at boot.
use vstd::prelude::*;
use crate::error::FbError;

verus! {

/// Default framebuffer dimensions of the RAM fallback.
pub const DEFAULT_FB_WIDTH: usize = 1024;

pub const DEFAULT_FB_HEIGHT: usize = 768;

/// Bytes per pixel of the RAM fallback (32 bits per pixel).
pub const DEFAULT_FB_BPP: usize = 4;

/// Maximum number of colour map entries (a standard 8-bit palette).
pub const MAX_CMAP_SIZE: usize = 256;

/// How the pixels of a framebuffer are laid out in memory.
#[derive(Debug, Clone, Copy, PartialEq, Eq, Structural)]
pub enum PixelFormat {
    /// One byte of grey intensity.
    Grayscale8,
    /// 16 bits: 5 red, 6 green, 5 blue.
    Rgb565,
    /// 24 bits: 8 red, 8 green, 8 blue.
    Rgb888,
    /// 32 bits: 8 blue, 8 green, 8 red, 8 reserved.
    BgrReserved,
}

pub open spec fn nbytes_spec(format: PixelFormat) -> usize {
    match format {
        PixelFormat::Grayscale8 => 1,
        PixelFormat::Rgb565 => 2,
        PixelFormat::Rgb888 => 3,
        PixelFormat::BgrReserved => 4,
    }
}

impl PixelFormat {
    /// The number of bytes of one pixel.
    pub fn nbytes(&self) -> (n: usize)
        ensures
            n == nbytes_spec(*self),
    {
        match self {
            PixelFormat::Grayscale8 => 1,
            PixelFormat::Rgb565 => 2,
            PixelFormat::Rgb888 => 3,
            PixelFormat::BgrReserved => 4,
        }
    }
}

/// One colour map entry, with 16-bit channels as Linux keeps them.
#[derive(Debug, Clone, Copy, PartialEq, Eq, Structural)]
pub struct ColorMapEntry {
    pub red: u16,
    pub green: u16,
    pub blue: u16,
    pub transp: u16,
}

pub open spec fn zero_entry() -> ColorMapEntry {
    ColorMapEntry { red: 0, green: 0, blue: 0, transp: 0 }
}

/// Whether `len` entries from `start` fit in a colour map of the maximum size.
pub open spec fn cmap_range_ok(start: int, len: int) -> bool {
    start <= MAX_CMAP_SIZE && len <= MAX_CMAP_SIZE - start
}

/// The colour map `old` after `entries` are stored from `start`: it first
/// grows with black entries until it reaches past the last one written.
pub open spec fn cmap_after_set(old: Seq<ColorMapEntry>, start: int, entries: Seq<ColorMapEntry>) -> Seq<
    ColorMapEntry,
> {
    let required = start + entries.len();
    let grown = if old.len() < required {
        old + Seq::new((required - old.len()) as nat, |i: int| zero_entry())
    } else {
        old
    };
    grown.take(start) + entries + grown.skip(required)
}

/// What a read of `len` entries from `start` gives back, if it lies inside.
pub open spec fn cmap_read(cmap: Seq<ColorMapEntry>, start: int, len: int) -> Option<Seq<ColorMapEntry>> {
    if start >= cmap.len() || len > cmap.len() - start {
        None
    } else {
        Some(cmap.subrange(start, start + len))
    }
}

/// A software colour map, for devices without a hardware palette.
pub struct FbCmap {
    entries: Vec<ColorMapEntry>,
}

impl FbCmap {
    pub closed spec fn spec_entries(&self) -> Seq<ColorMapEntry> {
        self.entries@
    }

    /// An empty colour map.
    pub fn new() -> (c: Self)
        ensures
            c.spec_entries() == Seq::<ColorMapEntry>::empty(),
    {
        FbCmap { entries: Vec::new() }
    }

    /// A colour map of `len` black entries.
    pub fn with_len(len: usize) -> (c: Self)
        ensures
            c.spec_entries() == Seq::new(len as nat, |i: int| zero_entry()),
    {
        let mut entries: Vec<ColorMapEntry> = Vec::new();
        let mut i: usize = 0;
        while i < len
            invariant
                i <= len,
                entries@ == Seq::new(i as nat, |k: int| zero_entry()),
            decreases len - i,
        {
            entries.push(ColorMapEntry { red: 0, green: 0, blue: 0, transp: 0 });
            i = i + 1;
            proof {
                assert(entries@ =~= Seq::new(i as nat, |k: int| zero_entry()));
            }
        }
        FbCmap { entries }
    }

    /// Stores `entries` from index `start`, growing the map with black
    /// entries as needed; a range past the maximum size is refused.
    pub fn set_color_map(&mut self, start: usize, entries: &[ColorMapEntry]) -> (r: Result<(), FbError>)
        ensures
            r is Ok <==> cmap_range_ok(start as int, entries@.len() as int),
            r is Ok ==> final(self).spec_entries() == cmap_after_set(old(self).spec_entries(), start as int, entries@),
            r is Err ==> r == Err::<(), FbError>(FbError::InvalidArgs) && final(self).spec_entries() == old(self).spec_entries(),
    {
        if start > MAX_CMAP_SIZE || entries.len() > MAX_CMAP_SIZE - start {
            return Err(FbError::InvalidArgs);
        }
        let required = start + entries.len();
        let ghost e0 = self.entries@;
        let ghost grown = if e0.len() < required {
            e0 + Seq::new((required - e0.len()) as nat, |i: int| zero_entry())
        } else {
            e0
        };
        while self.entries.len() < required
            invariant
                required <= MAX_CMAP_SIZE,
                e0.len() <= self.entries@.len() <= if e0.len() < required { required as int } else { e0.len() as int },
                forall|i: int| 0 <= i < self.entries@.len() ==> #[trigger] self.entries@[i] == grown[i],
                grown == (if e0.len() < required {
                    e0 + Seq::new((required - e0.len()) as nat, |i: int| zero_entry())
                } else {
                    e0
                }),
            decreases required - self.entries@.len(),
        {
            self.entries.push(ColorMapEntry { red: 0, green: 0, blue: 0, transp: 0 });
        }
        proof {
            assert(self.entries@ =~= grown);
        }
        let n = entries.len();
        let mut k: usize = 0;
        while k < n
            invariant
                n == entries@.len(),
                start + n == required,
                required <= grown.len(),
                k <= n,
                self.entries@.len() == grown.len(),
                forall|q: int| 0 <= q < start ==> #[trigger] self.entries@[q] == grown[q],
                forall|q: int| start <= q < start + k ==> #[trigger] self.entries@[q] == entries@[q - start],
                forall|q: int| start + k <= q < grown.len() ==> #[trigger] self.entries@[q] == grown[q],
            decreases n - k,
        {
            self.entries.set(start + k, entries[k]);
            k = k + 1;
        }
        proof {
            assert(self.entries@ =~= cmap_after_set(e0, start as int, entries@));
        }
        Ok(())
    }

    /// The `len` entries from `start`, if they all lie inside the map.
    pub fn get_color_map(&self, start: usize, len: usize) -> (r: Option<Vec<ColorMapEntry>>)
        ensures
            match cmap_read(self.spec_entries(), start as int, len as int) {
                Some(s) => r is Some && r->0@ == s,
                None => r is None,
            },
    {
        if start >= self.entries.len() || len > self.entries.len() - start {
            return None;
        }
        let mut out: Vec<ColorMapEntry> = Vec::new();
        let mut k: usize = 0;
        while k < len
            invariant
                start + len <= self.entries@.len(),
                start + len <= usize::MAX,
                k <= len,
                out@ == self.entries@.subrange(start as int, start + k),
            decreases len - k,
        {
            out.push(self.entries[start + k]);
            k = k + 1;
            proof {
                assert(out@ =~= self.entries@.subrange(start as int, start + k));
            }
        }
        Some(out)
    }
}

/// A framebuffer backed by device memory of `size` bytes; the memory itself
/// is held by the caller, this keeps its geometry and colour map.
pub struct FrameBuffer {
    width: usize,
    height: usize,
    line_size: usize,
    pixel_format: PixelFormat,
    size: usize,
    cmap: FbCmap,
}

/// The byte offset of the pixel at (`x`, `y`).
pub open spec fn pixel_offset_spec(x: int, y: int, format: PixelFormat, line_size: int) -> int {
    x * nbytes_spec(format) + y * line_size
}

impl FrameBuffer {
    pub closed spec fn spec_width(&self) -> usize {
        self.width
    }

    pub closed spec fn spec_height(&self) -> usize {
        self.height
    }

    pub closed spec fn spec_line_size(&self) -> usize {
        self.line_size
    }

    pub closed spec fn spec_pixel_format(&self) -> PixelFormat {
        self.pixel_format
    }

    pub closed spec fn spec_size(&self) -> usize {
        self.size
    }

    pub closed spec fn spec_cmap(&self) -> Seq<ColorMapEntry> {
        self.cmap.spec_entries()
    }

    /// A framebuffer of the given geometry over `size` bytes of device
    /// memory, with an empty colour map.
    pub fn new(width: usize, height: usize, line_size: usize, pixel_format: PixelFormat, size: usize) -> (f: Self)
        ensures
            f.spec_width() == width,
            f.spec_height() == height,
            f.spec_line_size() == line_size,
            f.spec_pixel_format() == pixel_format,
            f.spec_size() == size,
            f.spec_cmap() == Seq::<ColorMapEntry>::empty(),
    {
        FrameBuffer { width, height, line_size, pixel_format, size, cmap: FbCmap::new() }
    }

    pub fn width(&self) -> (v: usize)
        ensures
            v == self.spec_width(),
    {
        self.width
    }

    pub fn height(&self) -> (v: usize)
        ensures
            v == self.spec_height(),
    {
        self.height
    }

    pub fn line_size(&self) -> (v: usize)
        ensures
            v == self.spec_line_size(),
    {
        self.line_size
    }

    pub fn pixel_format(&self) -> (v: PixelFormat)
        ensures
            v == self.spec_pixel_format(),
    {
        self.pixel_format
    }

    /// The size of the device memory in bytes.
    pub fn size(&self) -> (v: usize)
        ensures
            v == self.spec_size(),
    {
        self.size
    }

    /// The byte offset of the pixel at (`x`, `y`).
    pub fn pixel_offset(&self, x: usize, y: usize) -> (o: usize)
        requires
            pixel_offset_spec(x as int, y as int, self.spec_pixel_format(), self.spec_line_size() as int)
                <= usize::MAX,
        ensures
            o == pixel_offset_spec(x as int, y as int, self.spec_pixel_format(), self.spec_line_size() as int),
    {
        let nb = self.pixel_format.nbytes();
        proof {
            assert(0 <= x * nb) by (nonlinear_arith);
            assert(0 <= y * self.line_size) by (nonlinear_arith);
        }
        x * nb + y * self.line_size
    }

    /// The offset of the pixel at (`x`, `y`), as a signed position that can
    /// be moved by whole pixels and lines.
    pub fn calc_offset(&self, x: usize, y: usize) -> (o: PixelOffset<'_>)
        requires
            pixel_offset_spec(x as int, y as int, self.spec_pixel_format(), self.spec_line_size() as int)
                <= usize::MAX,
        ensures
            o.spec_offset() == pixel_offset_spec(
                x as int,
                y as int,
                self.spec_pixel_format(),
                self.spec_line_size() as int,
            ) as isize,
            o.spec_nbytes() == nbytes_spec(self.spec_pixel_format()),
            o.spec_line_size() == self.spec_line_size(),
    {
        let off = self.pixel_offset(x, y);
        PixelOffset { fb: self, offset: off as isize }
    }

    /// Stores colour map entries from `start`; see [`FbCmap::set_color_map`].
    pub fn set_color_map(&mut self, start: usize, entries: &[ColorMapEntry]) -> (r: Result<(), FbError>)
        ensures
            final(self).spec_width() == old(self).spec_width(),
            final(self).spec_height() == old(self).spec_height(),
            final(self).spec_line_size() == old(self).spec_line_size(),
            final(self).spec_pixel_format() == old(self).spec_pixel_format(),
            final(self).spec_size() == old(self).spec_size(),
            r is Ok <==> cmap_range_ok(start as int, entries@.len() as int),
            r is Ok ==> final(self).spec_cmap() == cmap_after_set(old(self).spec_cmap(), start as int, entries@),
            r is Err ==> r == Err::<(), FbError>(FbError::InvalidArgs) && final(self).spec_cmap() == old(self).spec_cmap(),
    {
        self.cmap.set_color_map(start, entries)
    }

    /// The colour map entries in `start..start + len`, if they exist.
    pub fn get_color_map(&self, start: usize, len: usize) -> (r: Option<Vec<ColorMapEntry>>)
        ensures
            match cmap_read(self.spec_cmap(), start as int, len as int) {
                Some(s) => r is Some && r->0@ == s,
                None => r is None,
            },
    {
        self.cmap.get_color_map(start, len)
    }
}

/// The offset of a pixel in a framebuffer.
pub struct PixelOffset<'a> {
    fb: &'a FrameBuffer,
    offset: isize,
}

impl<'a> PixelOffset<'a> {
    pub closed spec fn spec_offset(&self) -> isize {
        self.offset
    }

    pub closed spec fn spec_nbytes(&self) -> usize {
        nbytes_spec(self.fb.pixel_format)
    }

    pub closed spec fn spec_line_size(&self) -> usize {
        self.fb.line_size
    }

    /// Moves the offset by `x_delta` pixels.
    pub fn x_add(&mut self, x_delta: isize)
        requires
            isize::MIN <= x_delta * old(self).spec_nbytes() <= isize::MAX,
            isize::MIN <= old(self).spec_offset() + x_delta * old(self).spec_nbytes() <= isize::MAX,
        ensures
            final(self).spec_offset() == old(self).spec_offset() + x_delta * old(self).spec_nbytes(),
            final(self).spec_nbytes() == old(self).spec_nbytes(),
            final(self).spec_line_size() == old(self).spec_line_size(),
    {
        let nb = self.fb.pixel_format.nbytes() as isize;
        let delta = x_delta * nb;
        self.offset = self.offset + delta;
    }

    /// Moves the offset by `y_delta` lines.
    pub fn y_add(&mut self, y_delta: isize)
        requires
            old(self).spec_line_size() <= isize::MAX,
            isize::MIN <= y_delta * old(self).spec_line_size() <= isize::MAX,
            isize::MIN <= old(self).spec_offset() + y_delta * old(self).spec_line_size() <= isize::MAX,
        ensures
            final(self).spec_offset() == old(self).spec_offset() + y_delta * old(self).spec_line_size(),
            final(self).spec_nbytes() == old(self).spec_nbytes(),
            final(self).spec_line_size() == old(self).spec_line_size(),
    {
        let ls = self.fb.line_size as isize;
        let delta = y_delta * ls;
        self.offset = self.offset + delta;
    }

    /// The offset as an unsigned byte position.
    pub fn as_usize(&self) -> (v: usize)
        ensures
            v == self.spec_offset() as usize,
    {
        self.offset as usize
    }
}

/// `data` after a write of `bytes` at `offset`, cut at the end of `data`.
pub open spec fn ram_written(data: Seq<u8>, offset: int, bytes: Seq<u8>) -> Seq<u8> {
    let end = if offset + bytes.len() < data.len() { offset + bytes.len() } else { data.len() as int };
    data.take(offset) + bytes.take(end - offset) + data.skip(end)
}

/// What a read of `n` bytes at `offset` gives back: the bytes up to the end
/// of `data`, then zeros.
pub open spec fn ram_read(data: Seq<u8>, offset: int, n: int) -> Seq<u8> {
    let end = if offset + n < data.len() { offset + n } else { data.len() as int };
    data.subrange(offset, end) + Seq::new((n - (end - offset)) as nat, |i: int| 0u8)
}

/// A framebuffer kept in RAM, used when the machine has none.
pub struct RamFrameBuffer {
    width: usize,
    height: usize,
    line_size: usize,
    pixel_format: PixelFormat,
    data: Vec<u8>,
    cmap: FbCmap,
}

impl RamFrameBuffer {
    pub closed spec fn spec_width(&self) -> usize {
        self.width
    }

    pub closed spec fn spec_height(&self) -> usize {
        self.height
    }

    pub closed spec fn spec_line_size(&self) -> usize {
        self.line_size
    }

    pub closed spec fn spec_pixel_format(&self) -> PixelFormat {
        self.pixel_format
    }

    pub closed spec fn spec_data(&self) -> Seq<u8> {
        self.data@
    }

    pub closed spec fn spec_cmap(&self) -> Seq<ColorMapEntry> {
        self.cmap.spec_entries()
    }

    /// A black 1024x768 framebuffer of 32-bit pixels.
    pub fn new() -> (f: Self)
        ensures
            f.spec_width() == DEFAULT_FB_WIDTH,
            f.spec_height() == DEFAULT_FB_HEIGHT,
            f.spec_pixel_format() == PixelFormat::BgrReserved,
            f.spec_line_size() == DEFAULT_FB_WIDTH * 4,
            f.spec_data() == Seq::new((DEFAULT_FB_HEIGHT * DEFAULT_FB_WIDTH * 4) as nat, |i: int| 0u8),
            f.spec_cmap() == Seq::<ColorMapEntry>::empty(),
    {
        let width = DEFAULT_FB_WIDTH;
        let height = DEFAULT_FB_HEIGHT;
        let pixel_format = PixelFormat::BgrReserved;
        let line_size = width * pixel_format.nbytes();
        let size = height * line_size;
        let data = vec![0u8; size];
        proof {
            assert(data@ =~= Seq::new((DEFAULT_FB_HEIGHT * DEFAULT_FB_WIDTH * 4) as nat, |i: int| 0u8));
        }
        RamFrameBuffer { width, height, line_size, pixel_format, data, cmap: FbCmap::new() }
    }

    pub fn width(&self) -> (v: usize)
        ensures
            v == self.spec_width(),
    {
        self.width
    }

    pub fn height(&self) -> (v: usize)
        ensures
            v == self.spec_height(),
    {
        self.height
    }

    pub fn line_size(&self) -> (v: usize)
        ensures
            v == self.spec_line_size(),
    {
        self.line_size
    }

    pub fn pixel_format(&self) -> (v: PixelFormat)
        ensures
            v == self.spec_pixel_format(),
    {
        self.pixel_format
    }

    /// The size of the pixel memory in bytes.
    pub fn size(&self) -> (v: usize)
        ensures
            v == self.spec_data().len(),
    {
        self.data.len()
    }

    /// The byte offset of the pixel at (`x`, `y`).
    pub fn pixel_offset(&self, x: usize, y: usize) -> (o: usize)
        requires
            pixel_offset_spec(x as int, y as int, self.spec_pixel_format(), self.spec_line_size() as int)
                <= usize::MAX,
        ensures
            o == pixel_offset_spec(x as int, y as int, self.spec_pixel_format(), self.spec_line_size() as int),
    {
        let nb = self.pixel_format.nbytes();
        proof {
            assert(0 <= x * nb) by (nonlinear_arith);
            assert(0 <= y * self.line_size) by (nonlinear_arith);
        }
        x * nb + y * self.line_size
    }

    /// Writes `bytes` at `offset`, dropping what falls past the end; an
    /// offset at or past the end is refused.
    pub fn write_bytes_at(&mut self, offset: usize, bytes: &[u8]) -> (r: Result<(), FbError>)
        requires
            offset + bytes@.len() <= usize::MAX,
        ensures
            final(self).spec_width() == old(self).spec_width(),
            final(self).spec_height() == old(self).spec_height(),
            final(self).spec_line_size() == old(self).spec_line_size(),
            final(self).spec_pixel_format() == old(self).spec_pixel_format(),
            final(self).spec_cmap() == old(self).spec_cmap(),
            r is Ok <==> offset < old(self).spec_data().len(),
            r is Ok ==> final(self).spec_data() == ram_written(old(self).spec_data(), offset as int, bytes@),
            r is Err ==> r == Err::<(), FbError>(FbError::InvalidArgs) && final(self).spec_data() == old(self).spec_data(),
    {
        let len = self.data.len();
        if offset >= len {
            return Err(FbError::InvalidArgs);
        }
        let end = if offset + bytes.len() < len { offset + bytes.len() } else { len };
        let n = end - offset;
        let ghost d0 = self.data@;
        let mut k: usize = 0;
        while k < n
            invariant
                n == end - offset,
                offset <= end <= d0.len(),
                end <= offset + bytes@.len(),
                k <= n,
                self.data@.len() == d0.len(),
                self.width == old(self).width,
                self.height == old(self).height,
                self.line_size == old(self).line_size,
                self.pixel_format == old(self).pixel_format,
                self.cmap == old(self).cmap,
                d0 == old(self).data@,
                forall|q: int| 0 <= q < offset ==> #[trigger] self.data@[q] == d0[q],
                forall|q: int| offset <= q < offset + k ==> #[trigger] self.data@[q] == bytes@[q - offset],
                forall|q: int| offset + k <= q < d0.len() ==> #[trigger] self.data@[q] == d0[q],
            decreases n - k,
        {
            self.data.set(offset + k, bytes[k]);
            k = k + 1;
        }
        proof {
            assert(self.data@ =~= ram_written(d0, offset as int, bytes@));
        }
        Ok(())
    }

    /// Reads `buf.len()` bytes at `offset` into `buf`, filling with zeros
    /// past the end; an offset at or past the end is refused.
    pub fn read_bytes_at(&self, offset: usize, buf: &mut [u8]) -> (r: Result<(), FbError>)
        requires
            offset + old(buf)@.len() <= usize::MAX,
        ensures
            r is Ok <==> offset < self.spec_data().len(),
            r is Ok ==> final(buf)@ == ram_read(self.spec_data(), offset as int, old(buf)@.len() as int),
            r is Err ==> r == Err::<(), FbError>(FbError::InvalidArgs) && final(buf)@ == old(buf)@,
    {
        let len = self.data.len();
        if offset >= len {
            return Err(FbError::InvalidArgs);
        }
        let total = buf.len();
        let end = if offset + total < len { offset + total } else { len };
        let n = end - offset;
        let ghost b0 = buf@;
        let mut k: usize = 0;
        while k < total
            invariant
                n == end - offset,
                offset <= end <= self.data@.len(),
                end <= offset + total,
                total == b0.len(),
                buf@.len() == total,
                k <= total,
                forall|q: int| 0 <= q < k && q < n ==> #[trigger] buf@[q] == self.data@[offset + q],
                forall|q: int| 0 <= q < k && n <= q ==> #[trigger] buf@[q] == 0u8,
            decreases total - k,
        {
            if k < n {
                buf[k] = self.data[offset + k];
            } else {
                buf[k] = 0u8;
            }
            k = k + 1;
        }
        proof {
            assert(buf@ =~= ram_read(self.data@, offset as int, total as int));
        }
        Ok(())
    }

    /// Fills the pixel memory with zeros.
    pub fn clear(&mut self)
        ensures
            final(self).spec_width() == old(self).spec_width(),
            final(self).spec_height() == old(self).spec_height(),
            final(self).spec_line_size() == old(self).spec_line_size(),
            final(self).spec_pixel_format() == old(self).spec_pixel_format(),
            final(self).spec_cmap() == old(self).spec_cmap(),
            final(self).spec_data() == Seq::new(old(self).spec_data().len(), |i: int| 0u8),
    {
        let n = self.data.len();
        let mut k: usize = 0;
        while k < n
            invariant
                n == self.data@.len(),
                k <= n,
                self.width == old(self).width,
                self.height == old(self).height,
                self.line_size == old(self).line_size,
                self.pixel_format == old(self).pixel_format,
                self.cmap == old(self).cmap,
                n == old(self).data@.len(),
                forall|q: int| 0 <= q < k ==> #[trigger] self.data@[q] == 0u8,
            decreases n - k,
        {
            self.data.set(k, 0u8);
            k = k + 1;
        }
        proof {
            assert(self.data@ =~= Seq::new(n as nat, |i: int| 0u8));
        }
    }

    /// Stores colour map entries from `start`; see [`FbCmap::set_color_map`].
    pub fn set_color_map(&mut self, start: usize, entries: &[ColorMapEntry]) -> (r: Result<(), FbError>)
        ensures
            final(self).spec_width() == old(self).spec_width(),
            final(self).spec_height() == old(self).spec_height(),
            final(self).spec_line_size() == old(self).spec_line_size(),
            final(self).spec_pixel_format() == old(self).spec_pixel_format(),
            final(self).spec_data() == old(self).spec_data(),
            r is Ok <==> cmap_range_ok(start as int, entries@.len() as int),
            r is Ok ==> final(self).spec_cmap() == cmap_after_set(old(self).spec_cmap(), start as int, entries@),
            r is Err ==> r == Err::<(), FbError>(FbError::InvalidArgs) && final(self).spec_cmap() == old(self).spec_cmap(),
    {
        self.cmap.set_color_map(start, entries)
    }

    /// The colour map entries in `start..start + len`, if they exist.
    pub fn get_color_map(&self, start: usize, len: usize) -> (r: Option<Vec<ColorMapEntry>>)
        ensures
            match cmap_read(self.spec_cmap(), start as int, len as int) {
                Some(s) => r is Some && r->0@ == s,
                None => r is None,
            },
    {
        self.cmap.get_color_map(start, len)
    }
}

/// The framebuffer that the boot loader describes.
#[derive(Debug, Clone, Copy, PartialEq, Eq, Structural)]
pub struct FramebufferArg {
    pub address: usize,
    pub width: usize,
    pub height: usize,
    pub bpp: usize,
}

/// The pixel format guessed from a number of bits per pixel.
pub open spec fn format_for_bpp(bpp: usize) -> Option<PixelFormat> {
    if bpp == 8 {
        Some(PixelFormat::Grayscale8)
    } else if bpp == 16 {
        Some(PixelFormat::Rgb565)
    } else if bpp == 24 {
        Some(PixelFormat::Rgb888)
    } else if bpp == 32 {
        Some(PixelFormat::BgrReserved)
    } else {
        None
    }
}

/// How the boot framebuffer is set up.
#[derive(Debug, Clone, Copy, PartialEq, Eq, Structural)]
pub enum FbInit {
    /// No usable hardware framebuffer: use a [`RamFrameBuffer`].
    RamFallback,
    /// Map `size` bytes of device memory from `base`, in lines of `line_size`.
    Hardware { base: usize, width: usize, height: usize, line_size: usize, size: usize, pixel_format: PixelFormat },
}

/// Whether the geometry of a usable boot framebuffer fits the address space.
pub open spec fn arg_fits(a: FramebufferArg) -> bool {
    match format_for_bpp(a.bpp) {
        Some(f) => {
            &&& a.width * nbytes_spec(f) <= usize::MAX
            &&& a.height * (a.width * nbytes_spec(f)) <= usize::MAX
            &&& a.address + a.height * (a.width * nbytes_spec(f)) <= usize::MAX
        },
        None => true,
    }
}

/// The set-up that a boot framebuffer argument calls for.
pub open spec fn init_spec(arg: Option<FramebufferArg>) -> FbInit {
    match arg {
        None => FbInit::RamFallback,
        Some(a) => if a.address == 0 {
            FbInit::RamFallback
        } else {
            match format_for_bpp(a.bpp) {
                None => FbInit::RamFallback,
                Some(f) => FbInit::Hardware {
                    base: a.address,
                    width: a.width,
                    height: a.height,
                    line_size: (a.width * nbytes_spec(f)) as usize,
                    size: (a.height * (a.width * nbytes_spec(f))) as usize,
                    pixel_format: f,
                },
            }
        },
    }
}

/// Decides how the boot framebuffer is set up: without an argument, at
/// address zero, or with an unknown depth, the RAM fallback; otherwise the
/// device memory, its pixel format guessed from the depth and its lines
/// taken as `width` pixels long.
pub fn init(arg: Option<FramebufferArg>) -> (r: FbInit)
    requires
        arg matches Some(a) ==> a.address == 0 || arg_fits(a),
    ensures
        r == init_spec(arg),
{
    let a = match arg {
        None => {
            return FbInit::RamFallback;
        },
        Some(a) => a,
    };
    if a.address == 0 {
        return FbInit::RamFallback;
    }
    let pixel_format = if a.bpp == 8 {
        PixelFormat::Grayscale8
    } else if a.bpp == 16 {
        PixelFormat::Rgb565
    } else if a.bpp == 24 {
        PixelFormat::Rgb888
    } else if a.bpp == 32 {
        PixelFormat::BgrReserved
    } else {
        return FbInit::RamFallback;
    };
    let line_size = a.width * pixel_format.nbytes();
    let size = a.height * line_size;
    FbInit::Hardware { base: a.address, width: a.width, height: a.height, line_size, size, pixel_format }
}

/// Reading back a range of the colour map just stored gives the entries
/// stored.
pub proof fn law_cmap_set_then_get(old: Seq<ColorMapEntry>, start: int, entries: Seq<ColorMapEntry>)
    requires
        0 <= start,
        entries.len() > 0,
        cmap_range_ok(start, entries.len() as int),
    ensures
        cmap_read(cmap_after_set(old, start, entries), start, entries.len() as int) == Some(entries),
{
    let new = cmap_after_set(old, start, entries);
    assert(new.subrange(start, start + entries.len()) =~= entries);
}

/// Storing colour map entries leaves every entry outside the stored range
/// as it was, and the map grows only up to the end of that range.
pub proof fn law_cmap_set_keeps_others(old: Seq<ColorMapEntry>, start: int, entries: Seq<ColorMapEntry>, i: int)
    requires
        0 <= start,
        cmap_range_ok(start, entries.len() as int),
        0 <= i < old.len(),
        !(start <= i < start + entries.len()),
    ensures
        cmap_after_set(old, start, entries)[i] == old[i],
        cmap_after_set(old, start, entries).len() == if old.len() < start + entries.len() {
            start + entries.len()
        } else {
            old.len() as int
        },
{
}

/// Bytes written inside a RAM framebuffer read back as written.
pub proof fn law_ram_write_then_read(data: Seq<u8>, offset: int, bytes: Seq<u8>)
    requires
        0 <= offset,
        offset + bytes.len() <= data.len(),
    ensures
        ram_read(ram_written(data, offset, bytes), offset, bytes.len() as int) == bytes,
        ram_written(data, offset, bytes).len() == data.len(),
{
    let w = ram_written(data, offset, bytes);
    assert(w.subrange(offset, offset + bytes.len()) =~= bytes);
    assert(ram_read(w, offset, bytes.len() as int) =~= bytes);
}

/// A boot framebuffer set up on device memory has pixels of exactly the
/// argument's depth, lines of `width` such pixels and `height` such lines,
/// at the argument's address; it is set up on device memory exactly when
/// the address is not zero and the depth is one of 8, 16, 24 and 32 bits.
pub proof fn law_init_geometry(a: FramebufferArg)
    ensures
        (init_spec(Some(a)) is Hardware) <==> (a.address != 0 && (a.bpp == 8 || a.bpp == 16 || a.bpp == 24 || a.bpp == 32)),
        init_spec(Some(a)) matches FbInit::Hardware { base, width, height, line_size, size, pixel_format } ==> {
            &&& 8 * nbytes_spec(pixel_format) == a.bpp
            &&& base == a.address
            &&& width == a.width
            &&& height == a.height
            &&& arg_fits(a) ==> line_size == a.width * nbytes_spec(pixel_format) && size == a.height * line_size
        },
        init_spec(None) == FbInit::RamFallback,
{
}

/// A 32-bit boot framebuffer is taken as blue, green, red and a reserved
/// byte: four bytes a pixel.
pub proof fn law_init_32_bit_is_bgr_reserved(a: FramebufferArg)
    requires
        a.address != 0,
        a.bpp == 32,
    ensures
        init_spec(Some(a)) matches FbInit::Hardware { pixel_format, .. } && pixel_format == PixelFormat::BgrReserved,
{
}

} // verus!

//! The in-memory back buffer of double-buffered rendering.
use vstd::prelude::*;
use crate::error::FbError;
use crate::fbdev::{DEFAULT_FB_BPP, DEFAULT_FB_HEIGHT, DEFAULT_FB_WIDTH};

verus! {

/// Byte `i` (least significant first) of a packed colour.
pub open spec fn color_byte(color: u32, i: int) -> u8 {
    ((color >> ((8 * i) as u32)) & 0xffu32) as u8
}

/// The value of byte `j` after clearing a buffer of `len` bytes, laid out in
/// lines of `line_size` bytes and pixels of `bpp` bytes, with `color`: every
/// whole pixel of every whole line takes the colour's low bytes; bytes past
/// the last whole pixel of a line, and past the last whole line, keep `old`.
pub open spec fn cleared_byte(old: u8, color: u32, bpp: int, line_size: int, len: int, j: int) -> u8 {
    let col = j % line_size;
    if j < len - len % line_size && col < line_size - line_size % bpp {
        color_byte(color, col % bpp)
    } else {
        old
    }
}

/// `data` with `bytes` written from `offset` on.
pub open spec fn written(data: Seq<u8>, offset: int, bytes: Seq<u8>) -> Seq<u8> {
    data.take(offset) + bytes + data.skip(offset + bytes.len())
}

/// The back buffer for double-buffered rendering: rendering goes here
/// first and is then presented to the framebuffer.
pub struct BackBuffer {
    data: Vec<u8>,
    width: usize,
    height: usize,
    bpp: usize,
    line_size: usize,
}

impl BackBuffer {
    pub closed spec fn spec_data(&self) -> Seq<u8> {
        self.data@
    }

    pub closed spec fn spec_width(&self) -> usize {
        self.width
    }

    pub closed spec fn spec_height(&self) -> usize {
        self.height
    }

    pub closed spec fn spec_bpp(&self) -> usize {
        self.bpp
    }

    pub closed spec fn spec_line_size(&self) -> usize {
        self.line_size
    }

    /// The buffer's invariant: it holds `height` lines of `line_size` bytes.
    pub open spec fn wf(&self) -> bool {
        self.spec_data().len() == self.spec_height() * self.spec_line_size()
    }

    /// Creates a zero-filled buffer of `height` lines of `line_size` bytes.
    pub fn new(width: usize, height: usize, bpp: usize, line_size: usize) -> (b: Self)
        requires
            height * line_size <= usize::MAX,
        ensures
            b.wf(),
            b.spec_width() == width,
            b.spec_height() == height,
            b.spec_bpp() == bpp,
            b.spec_line_size() == line_size,
            b.spec_data() == Seq::new((height * line_size) as nat, |i: int| 0u8),
    {
        let size = height * line_size;
        let data = vec![0u8; size];
        proof {
            assert(data@ =~= Seq::new((height * line_size) as nat, |i: int| 0u8));
        }
        BackBuffer { data, width, height, bpp, line_size }
    }

    pub fn width(&self) -> (v: usize)
        ensures
            v == self.spec_width(),
    {
        self.width
    }

    pub fn height(&self) -> (v: usize)
        ensures
            v == self.spec_height(),
    {
        self.height
    }

    pub fn bpp(&self) -> (v: usize)
        ensures
            v == self.spec_bpp(),
    {
        self.bpp
    }

    pub fn line_size(&self) -> (v: usize)
        ensures
            v == self.spec_line_size(),
    {
        self.line_size
    }

    /// The pixel bytes, writable in place.
    pub fn data_mut(&mut self) -> (d: &mut [u8])
        ensures
            d@ == old(self).spec_data(),
            final(self).spec_data() == final(d)@,
            final(self).spec_width() == old(self).spec_width(),
            final(self).spec_height() == old(self).spec_height(),
            final(self).spec_bpp() == old(self).spec_bpp(),
            final(self).spec_line_size() == old(self).spec_line_size(),
    {
        self.data.as_mut_slice()
    }

    /// The pixel bytes.
    pub fn data(&self) -> (d: &[u8])
        ensures
            d@ == self.spec_data(),
    {
        self.data.as_slice()
    }

    /// Fills every whole pixel of every whole line with the low `bpp` bytes
    /// of `color`, least significant first.
    pub fn clear(&mut self, color: u32)
        requires
            0 < old(self).spec_bpp() <= 4,
            0 < old(self).spec_line_size(),
        ensures
            final(self).spec_width() == old(self).spec_width(),
            final(self).spec_height() == old(self).spec_height(),
            final(self).spec_bpp() == old(self).spec_bpp(),
            final(self).spec_line_size() == old(self).spec_line_size(),
            final(self).spec_data().len() == old(self).spec_data().len(),
            forall|j: int|
                0 <= j < old(self).spec_data().len() ==> #[trigger] final(self).spec_data()[j] == cleared_byte(
                    old(self).spec_data()[j],
                    color,
                    old(self).spec_bpp() as int,
                    old(self).spec_line_size() as int,
                    old(self).spec_data().len() as int,
                    j,
                ),
    {
        let bytes = self.bpp;
        let ls = self.line_size;
        let len = self.data.len();
        let mut color_bytes: [u8; 4] = [0u8; 4];
        let mut i: usize = 0;
        while i < bytes
            invariant
                bytes <= 4,
                i <= bytes,
                forall|k: int| 0 <= k < i ==> #[trigger] color_bytes@[k] == color_byte(color, k),
            decreases bytes - i,
        {
            let shifted = color >> ((i * 8) as u32);
            let b = (shifted & 0xFFu32) as u8;
            color_bytes.set(i, b);
            i = i + 1;
        }
        proof {
            lemma_mod_le(len as int, ls as int);
            lemma_mod_le(ls as int, bytes as int);
        }
        let full_lines = len - len % ls;
        let full_pixels = ls - ls % bytes;
        let ghost d0 = self.data@;
        let mut j: usize = 0;
        let mut col: usize = 0;
        let mut k: usize = 0;
        while j < len
            invariant
                0 < bytes <= 4,
                0 < ls,
                bytes == self.bpp,
                ls == self.line_size,
                len == d0.len(),
                full_lines == len - len % ls,
                full_pixels == ls - ls % bytes,
                full_lines <= len,
                full_pixels <= ls,
                forall|q: int| 0 <= q < bytes ==> #[trigger] color_bytes@[q] == color_byte(color, q),
                j <= len,
                col as int == (j as int) % (ls as int),
                k as int == (col as int) % (bytes as int),
                self.data@.len() == len,
                self.width == old(self).width,
                self.height == old(self).height,
                self.bpp == old(self).bpp,
                self.line_size == old(self).line_size,
                d0 == old(self).data@,
                forall|q: int| 0 <= q < j ==> #[trigger] self.data@[q] == cleared_byte(
                    d0[q],
                    color,
                    bytes as int,
                    ls as int,
                    len as int,
                    q,
                ),
                forall|q: int| j <= q < len ==> #[trigger] self.data@[q] == d0[q],
            decreases len - j,
        {
            proof {
                vstd::arithmetic::div_mod::lemma_mod_bound(j as int, ls as int);
                vstd::arithmetic::div_mod::lemma_mod_bound(col as int, bytes as int);
            }
            if j < full_lines && col < full_pixels {
                self.data.set(j, color_bytes[k]);
            }
            proof {
                lemma_mod_step(j as int, ls as int);
                if col + 1 == ls {
                    assert(0int % (bytes as int) == 0) by {
                        vstd::arithmetic::div_mod::lemma_small_mod(0nat, bytes as nat);
                    }
                } else {
                    lemma_mod_step(col as int, bytes as int);
                }
            }
            if col + 1 == ls {
                col = 0;
                k = 0;
            } else {
                col = col + 1;
                if k + 1 == bytes {
                    k = 0;
                } else {
                    k = k + 1;
                }
            }
            j = j + 1;
        }
    }

    /// Writes the bytes of one pixel from `offset`; the pixel must lie inside
    /// the buffer.
    pub fn write_pixel_at(&mut self, offset: usize, pixel: &[u8]) -> (r: Result<(), FbError>)
        requires
            offset + pixel@.len() <= usize::MAX,
        ensures
            final(self).spec_width() == old(self).spec_width(),
            final(self).spec_height() == old(self).spec_height(),
            final(self).spec_bpp() == old(self).spec_bpp(),
            final(self).spec_line_size() == old(self).spec_line_size(),
            final(self).spec_data().len() == old(self).spec_data().len(),
            r is Ok <==> offset + pixel@.len() <= old(self).spec_data().len(),
            r is Ok ==> final(self).spec_data() == written(old(self).spec_data(), offset as int, pixel@),
            r is Err ==> r == Err::<(), FbError>(FbError::InvalidArgs) && final(self).spec_data() == old(self).spec_data(),
    {
        self.copy_in(offset, pixel)
    }

    /// Writes `bytes` from `offset`; they must lie inside the buffer.
    pub fn write_bytes_at(&mut self, offset: usize, bytes: &[u8]) -> (r: Result<(), FbError>)
        requires
            offset + bytes@.len() <= usize::MAX,
        ensures
            final(self).spec_width() == old(self).spec_width(),
            final(self).spec_height() == old(self).spec_height(),
            final(self).spec_bpp() == old(self).spec_bpp(),
            final(self).spec_line_size() == old(self).spec_line_size(),
            final(self).spec_data().len() == old(self).spec_data().len(),
            r is Ok <==> offset + bytes@.len() <= old(self).spec_data().len(),
            r is Ok ==> final(self).spec_data() == written(old(self).spec_data(), offset as int, bytes@),
            r is Err ==> r == Err::<(), FbError>(FbError::InvalidArgs) && final(self).spec_data() == old(self).spec_data(),
    {
        self.copy_in(offset, bytes)
    }

    fn copy_in(&mut self, offset: usize, bytes: &[u8]) -> (r: Result<(), FbError>)
        requires
            offset + bytes@.len() <= usize::MAX,
        ensures
            final(self).width == old(self).width,
            final(self).height == old(self).height,
            final(self).bpp == old(self).bpp,
            final(self).line_size == old(self).line_size,
            final(self).data@.len() == old(self).data@.len(),
            r is Ok <==> offset + bytes@.len() <= old(self).data@.len(),
            r is Ok ==> final(self).data@ == written(old(self).data@, offset as int, bytes@),
            r is Err ==> r == Err::<(), FbError>(FbError::InvalidArgs) && final(self).data@ == old(self).data@,
    {
        if offset + bytes.len() > self.data.len() {
            return Err(FbError::InvalidArgs);
        }
        let n = bytes.len();
        let ghost d0 = self.data@;
        let mut k: usize = 0;
        while k < n
            invariant
                n == bytes@.len(),
                offset + n <= d0.len(),
                offset + n <= usize::MAX,
                k <= n,
                self.data@.len() == d0.len(),
                self.width == old(self).width,
                self.height == old(self).height,
                self.bpp == old(self).bpp,
                self.line_size == old(self).line_size,
                d0 == old(self).data@,
                forall|q: int| 0 <= q < offset ==> #[trigger] self.data@[q] == d0[q],
                forall|q: int| offset <= q < offset + k ==> #[trigger] self.data@[q] == bytes@[q - offset],
                forall|q: int| offset + k <= q < d0.len() ==> #[trigger] self.data@[q] == d0[q],
            decreases n - k,
        {
            self.data.set(offset + k, bytes[k]);
            k = k + 1;
        }
        proof {
            assert(self.data@ =~= written(d0, offset as int, bytes@));
        }
        Ok(())
    }
}

/// A remainder is at most the number divided.
proof fn lemma_mod_le(x: int, m: int)
    requires
        0 <= x,
        0 < m,
    ensures
        x % m <= x,
{
    if x < m {
        vstd::arithmetic::div_mod::lemma_small_mod(x as nat, m as nat);
    } else {
        vstd::arithmetic::div_mod::lemma_mod_bound(x, m);
    }
}

/// Stepping a counter by one steps its remainder by one, wrapping to zero.
proof fn lemma_mod_step(j: int, m: int)
    requires
        0 <= j,
        0 < m,
    ensures
        (j + 1) % m == if j % m + 1 == m { 0 } else { j % m + 1 },
{
    vstd::arithmetic::div_mod::lemma_add_mod_noop(j, 1, m);
    vstd::arithmetic::div_mod::lemma_mod_bound(j, m);
    if m == 1 {
        assert(j % m == 0) by {
            vstd::arithmetic::div_mod::lemma_mod_bound(j, m);
        }
        assert((j + 1) % m == 0) by {
            vstd::arithmetic::div_mod::lemma_mod_bound(j + 1, m);
        }
    } else {
        vstd::arithmetic::div_mod::lemma_small_mod(1nat, m as nat);
        if j % m + 1 == m {
            vstd::arithmetic::div_mod::lemma_mod_self_0(m);
        } else {
            vstd::arithmetic::div_mod::lemma_small_mod((j % m + 1) as nat, m as nat);
        }
    }
}

/// The geometry of the framebuffer a [`SimpleDrm`] presents to.
#[derive(Debug, Clone, Copy, PartialEq, Eq, Structural)]
pub struct FbGeometry {
    pub width: usize,
    pub height: usize,
    /// Bytes per pixel.
    pub bpp: usize,
    /// Bytes per line.
    pub line_size: usize,
}

/// The back buffer geometry for a framebuffer, or the RAM fallback's
/// 1024x768 of 32-bit pixels when there is none.
pub open spec fn back_geometry(fb: Option<FbGeometry>) -> FbGeometry {
    match fb {
        Some(g) => g,
        None => FbGeometry {
            width: DEFAULT_FB_WIDTH,
            height: DEFAULT_FB_HEIGHT,
            bpp: DEFAULT_FB_BPP,
            line_size: (DEFAULT_FB_WIDTH * DEFAULT_FB_BPP) as usize,
        },
    }
}

/// Double-buffered rendering onto a framebuffer: drawing goes to the back
/// buffer, and presenting copies all of it to the framebuffer.
pub struct SimpleDrm {
    fb: Option<FbGeometry>,
    back_buffer: BackBuffer,
}

impl SimpleDrm {
    pub closed spec fn spec_fb(&self) -> Option<FbGeometry> {
        self.fb
    }

    pub closed spec fn spec_back_buffer(&self) -> BackBuffer {
        self.back_buffer
    }

    /// A renderer for `fb` (or for no framebuffer) with a black back buffer
    /// of the matching geometry.
    pub fn new(fb: Option<FbGeometry>) -> (r: Option<Self>)
        requires
            back_geometry(fb).height * back_geometry(fb).line_size <= usize::MAX,
        ensures
            r matches Some(d) && {
                let g = back_geometry(fb);
                &&& d.spec_fb() == fb
                &&& d.spec_back_buffer().wf()
                &&& d.spec_back_buffer().spec_width() == g.width
                &&& d.spec_back_buffer().spec_height() == g.height
                &&& d.spec_back_buffer().spec_bpp() == g.bpp
                &&& d.spec_back_buffer().spec_line_size() == g.line_size
                &&& d.spec_back_buffer().spec_data() == Seq::new((g.height * g.line_size) as nat, |i: int| 0u8)
            },
    {
        let (width, height, bpp, line_size) = match fb {
            Some(g) => (g.width, g.height, g.bpp, g.line_size),
            None => (DEFAULT_FB_WIDTH, DEFAULT_FB_HEIGHT, DEFAULT_FB_BPP, DEFAULT_FB_WIDTH * DEFAULT_FB_BPP),
        };
        let back_buffer = BackBuffer::new(width, height, bpp, line_size);
        Some(SimpleDrm { fb, back_buffer })
    }

    /// The back buffer, for drawing.
    pub fn back_buffer(&mut self) -> (b: &mut BackBuffer)
        ensures
            *b == old(self).spec_back_buffer(),
            final(self).spec_back_buffer() == *final(b),
            final(self).spec_fb() == old(self).spec_fb(),
    {
        &mut self.back_buffer
    }

    /// What presenting writes to the framebuffer from its first byte: the
    /// whole back buffer; nothing when there is no framebuffer.
    pub fn present(&self) -> (r: Option<&[u8]>)
        ensures
            self.spec_fb() is None ==> r is None,
            self.spec_fb() is Some ==> (r matches Some(d) && d@ == self.spec_back_buffer().spec_data()),
    {
        match self.fb {
            Some(_) => Some(self.back_buffer.data()),
            None => None,
        }
    }

    /// The width of the framebuffer, or of the RAM fallback.
    pub fn width(&self) -> (w: usize)
        ensures
            w == back_geometry(self.spec_fb()).width,
    {
        match self.fb {
            Some(g) => g.width,
            None => DEFAULT_FB_WIDTH,
        }
    }

    /// The height of the framebuffer, or of the RAM fallback.
    pub fn height(&self) -> (h: usize)
        ensures
            h == back_geometry(self.spec_fb()).height,
    {
        match self.fb {
            Some(g) => g.height,
            None => DEFAULT_FB_HEIGHT,
        }
    }
}

/// After a write inside the back buffer, its bytes at the offset are the
/// bytes written, the others are unchanged, and its size is the same.
pub proof fn law_write_then_read(data: Seq<u8>, offset: int, bytes: Seq<u8>)
    requires
        0 <= offset,
        offset + bytes.len() <= data.len(),
    ensures
        written(data, offset, bytes).len() == data.len(),
        written(data, offset, bytes).subrange(offset, offset + bytes.len()) == bytes,
        forall|j: int|
            0 <= j < data.len() && !(offset <= j < offset + bytes.len()) ==> #[trigger] written(data, offset, bytes)[j]
                == data[j],
{
    assert(written(data, offset, bytes).subrange(offset, offset + bytes.len()) =~= bytes);
}

} // verus!

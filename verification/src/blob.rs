//! Property blobs: byte payloads that properties refer to by id.
use vstd::prelude::*;

use crate::display::{DrmDisplayFormat, DrmDisplayMode, DrmModeModeInfo};
use crate::error::DrmError;
use crate::vblank::le_bytes_u32;

verus! {

/// Size in bytes of a userspace mode (`struct drm_mode_modeinfo`).
pub const DRM_MODE_INFO_SIZE: usize = 68;

/// Size in bytes of the header of a format list blob.
pub const FORMAT_BLOB_HEADER_SIZE: u32 = 24;

/// A blob of bytes.
#[derive(Debug, Clone)]
pub struct DrmPropertyBlob {
    data: Vec<u8>,
}

/// The little-endian 16-bit value at `off`.
pub open spec fn le_u16_at(b: Seq<u8>, off: int) -> u16 {
    (b[off] + 256 * b[off + 1]) as u16
}

/// The little-endian 32-bit value at `off`.
pub open spec fn le_u32_at(b: Seq<u8>, off: int) -> u32 {
    (b[off] + 256 * b[off + 1] + 65536 * b[off + 2] + 16777216 * b[off + 3]) as u32
}

/// Whether `m` is the display mode of the userspace mode stored in the
/// bytes `b`: fields in declaration order, little-endian, the refresh field
/// (bytes 24 to 28) unused.
pub open spec fn mode_matches_bytes(m: DrmDisplayMode, b: Seq<u8>) -> bool {
    &&& m.clock == le_u32_at(b, 0)
    &&& m.hdisplay == le_u16_at(b, 4)
    &&& m.hsync_start == le_u16_at(b, 6)
    &&& m.hsync_end == le_u16_at(b, 8)
    &&& m.htotal == le_u16_at(b, 10)
    &&& m.hskew == le_u16_at(b, 12)
    &&& m.vdisplay == le_u16_at(b, 14)
    &&& m.vsync_start == le_u16_at(b, 16)
    &&& m.vsync_end == le_u16_at(b, 18)
    &&& m.vtotal == le_u16_at(b, 20)
    &&& m.vscan == le_u16_at(b, 22)
    &&& m.flags == le_u32_at(b, 28)
    &&& m.type_ == le_u32_at(b, 32)
    &&& m.name@ == b.subrange(36, 68)
}

/// The length of the header and the format codes, rounded up to 8.
pub open spec fn format_blob_len(n: nat) -> nat {
    ((24 + 4 * n + 7) / 8 * 8) as nat
}

/// The format codes of `formats`, each in little-endian byte order.
pub open spec fn format_codes_bytes(formats: Seq<DrmDisplayFormat>) -> Seq<u8>
    decreases formats.len(),
{
    if formats.len() == 0 {
        Seq::empty()
    } else {
        format_codes_bytes(formats.drop_last()) + le_bytes_u32(formats.last().spec_code())
    }
}

/// The supported-formats blob of a plane: a header (version 1, no flags,
/// the format count, the offset of the codes, no modifiers, the offset of
/// the modifier list), the format codes, and zero bytes up to a multiple
/// of 8.
pub open spec fn in_formats_spec(formats: Seq<DrmDisplayFormat>) -> Seq<u8> {
    let n = formats.len();
    let body = le_bytes_u32(1) + le_bytes_u32(0) + le_bytes_u32(n as u32) + le_bytes_u32(24)
        + le_bytes_u32(0) + le_bytes_u32(format_blob_len(n) as u32) + format_codes_bytes(formats);
    body + Seq::new((format_blob_len(n) - body.len()) as nat, |i: int| 0u8)
}

proof fn lemma_format_codes_len(formats: Seq<DrmDisplayFormat>)
    ensures
        format_codes_bytes(formats).len() == 4 * formats.len(),
    decreases formats.len(),
{
    if formats.len() > 0 {
        lemma_format_codes_len(formats.drop_last());
    }
}

fn push_u32(bytes: &mut Vec<u8>, v: u32)
    ensures
        final(bytes)@ == old(bytes)@ + le_bytes_u32(v),
{
    bytes.push((v % 0x100) as u8);
    bytes.push((v / 0x100 % 0x100) as u8);
    bytes.push((v / 0x10000 % 0x100) as u8);
    bytes.push((v / 0x1000000) as u8);
    assert(bytes@ =~= old(bytes)@ + le_bytes_u32(v));
}

impl DrmPropertyBlob {
    pub closed spec fn spec_data(&self) -> Seq<u8> {
        self.data@
    }

    /// Creates a blob holding `data`.
    pub fn new(data: Vec<u8>) -> (b: Self)
        ensures
            b.spec_data() == data@,
    {
        DrmPropertyBlob { data }
    }

    pub fn data(&self) -> (d: &[u8])
        ensures
            d@ == self.spec_data(),
    {
        self.data.as_slice()
    }

    pub fn length(&self) -> (n: usize)
        ensures
            n == self.spec_data().len(),
    {
        self.data.len()
    }

    /// Encodes the list of pixel formats a plane supports.
    pub fn encode_in_formats(formats: &[DrmDisplayFormat]) -> (b: Self)
        requires
            formats@.len() <= 0x3FFF_FFF8,
        ensures
            b.spec_data() == in_formats_spec(formats@),
    {
        let n = formats.len() as u32;
        let end: u32 = (24 + 4 * n + 7) / 8 * 8;
        let mut data: Vec<u8> = Vec::new();
        push_u32(&mut data, 1);
        push_u32(&mut data, 0);
        push_u32(&mut data, n);
        push_u32(&mut data, FORMAT_BLOB_HEADER_SIZE);
        push_u32(&mut data, 0);
        push_u32(&mut data, end);
        let ghost header = data@;
        let mut i: usize = 0;
        while i < formats.len()
            invariant
                i <= formats@.len(),
                formats@.len() <= 0x3FFF_FFF8,
                data@ == header + format_codes_bytes(formats@.take(i as int)),
            decreases formats@.len() - i,
        {
            let code = formats[i].code();
            push_u32(&mut data, code);
            proof {
                assert(formats@.take(i + 1).drop_last() =~= formats@.take(i as int));
            }
            i = i + 1;
        }
        proof {
            assert(formats@.take(i as int) =~= formats@);
            lemma_format_codes_len(formats@);
        }
        let ghost body = data@;
        while data.len() < end as usize
            invariant
                body.len() <= data@.len() <= end,
                data@.subrange(0, body.len() as int) == body,
                forall|j: int| body.len() <= j < data@.len() ==> data@[j] == 0u8,
            decreases end - data@.len(),
        {
            data.push(0u8);
        }
        proof {
            assert(data@ =~= body + Seq::new((format_blob_len(formats@.len()) - body.len()) as nat, |i: int| 0u8));
        }
        DrmPropertyBlob { data }
    }
}

fn read_u16(b: &[u8], off: usize) -> (v: u16)
    requires
        off + 2 <= b@.len(),
    ensures
        v == le_u16_at(b@, off as int),
{
    (b[off] as u16) + 256 * (b[off + 1] as u16)
}

fn read_u32(b: &[u8], off: usize) -> (v: u32)
    requires
        off + 4 <= b@.len(),
    ensures
        v == le_u32_at(b@, off as int),
{
    (b[off] as u32) + 256 * (b[off + 1] as u32) + 65536 * (b[off + 2] as u32) + 16777216 * (b[off + 3] as u32)
}

impl DrmDisplayMode {
    /// Reads a display mode from a blob holding a userspace mode; a blob of
    /// any other length is invalid.
    pub fn from_blob(blob: &DrmPropertyBlob) -> (r: Result<DrmDisplayMode, DrmError>)
        ensures
            match r {
                Ok(m) => blob.spec_data().len() == DRM_MODE_INFO_SIZE && mode_matches_bytes(m, blob.spec_data()),
                Err(e) => e == DrmError::Invalid && blob.spec_data().len() != DRM_MODE_INFO_SIZE,
            },
    {
        let b = blob.data();
        if b.len() != DRM_MODE_INFO_SIZE {
            return Err(DrmError::Invalid);
        }
        let mut name = [0u8; 32];
        let mut i: usize = 0;
        while i < 32
            invariant
                i <= 32,
                b@.len() == 68,
                forall|j: int| 0 <= j < i ==> name@[j] == b@[36 + j],
            decreases 32 - i,
        {
            name[i] = b[36 + i];
            i = i + 1;
        }
        proof {
            assert(name@ =~= b@.subrange(36, 68));
        }
        let info = DrmModeModeInfo {
            clock: read_u32(b, 0),
            hdisplay: read_u16(b, 4),
            hsync_start: read_u16(b, 6),
            hsync_end: read_u16(b, 8),
            htotal: read_u16(b, 10),
            hskew: read_u16(b, 12),
            vdisplay: read_u16(b, 14),
            vsync_start: read_u16(b, 16),
            vsync_end: read_u16(b, 18),
            vtotal: read_u16(b, 20),
            vscan: read_u16(b, 22),
            vrefresh: read_u32(b, 24),
            flags: read_u32(b, 28),
            type_: read_u32(b, 32),
            name,
        };
        Ok(info.to_display_mode())
    }
}

} // verus!

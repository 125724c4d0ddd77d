//! Control queue commands of the virtio GPU device, and the features the
//! driver accepts.
use vstd::prelude::*;

verus! {

pub const VIRTIO_GPU_CMD_GET_DISPLAY_INFO: u32 = 0x0100;
pub const VIRTIO_GPU_CMD_RESOURCE_CREATE_2D: u32 = 0x0101;
pub const VIRTIO_GPU_CMD_RESOURCE_UNREF: u32 = 0x0102;
pub const VIRTIO_GPU_CMD_SET_SCANOUT: u32 = 0x0103;
pub const VIRTIO_GPU_CMD_FLUSH: u32 = 0x0104;
pub const VIRTIO_GPU_CMD_TRANSFER_TO_HOST_2D: u32 = 0x0105;
pub const VIRTIO_GPU_CMD_ATTACH_BACKING: u32 = 0x0106;
pub const VIRTIO_GPU_CMD_DETACH_BACKING: u32 = 0x0107;
pub const VIRTIO_GPU_CMD_UPDATE_CURSOR: u32 = 0x0110;
pub const VIRTIO_GPU_CMD_MOVE_CURSOR: u32 = 0x0111;
pub const VIRTIO_GPU_CMD_GET_CAPSET_INFO: u32 = 0x0200;
pub const VIRTIO_GPU_CMD_GET_EDID: u32 = 0x0201;

/// 32-bit BGRX (8:8:8:8).
pub const VIRTIO_GPU_FORMAT_B8G8R8X8: u32 = 1;
/// 32-bit BGRA (8:8:8:8).
pub const VIRTIO_GPU_FORMAT_B8G8R8A8: u32 = 2;
/// 16-bit RGB565 (5:6:5).
pub const VIRTIO_GPU_FORMAT_R5G6B5: u32 = 3;

/// Display via EDID.
pub const VIRTIO_GPU_F_EDID: u64 = 1;
/// Resource UUIDs.
pub const VIRTIO_GPU_F_RESOURCE_UUID: u64 = 2;
/// Blob resources.
pub const VIRTIO_GPU_F_RESOURCE_BLOB: u64 = 4;
/// Context initialisation.
pub const VIRTIO_GPU_F_CONTEXT_INIT: u64 = 8;

/// Of the features a device offers, those the driver takes: only EDID
/// display; 2D mode needs no feature bit.
pub fn negotiate_features(features: u64) -> (r: u64)
    ensures
        r == features & VIRTIO_GPU_F_EDID,
{
    let known = features & (VIRTIO_GPU_F_EDID | VIRTIO_GPU_F_RESOURCE_UUID | VIRTIO_GPU_F_RESOURCE_BLOB
        | VIRTIO_GPU_F_CONTEXT_INIT);
    let r = known & !VIRTIO_GPU_F_RESOURCE_UUID & !VIRTIO_GPU_F_RESOURCE_BLOB & !VIRTIO_GPU_F_CONTEXT_INIT;
    assert(r == features & 1u64) by (bit_vector)
        requires
            r == features & (1u64 | 2u64 | 4u64 | 8u64) & !2u64 & !4u64 & !8u64,
    ;
    r
}

/// The header common to all commands and responses.
#[derive(Debug, Clone, Copy, PartialEq, Eq, Structural)]
pub struct VirtioGpuCtrlHdr {
    /// Command type (one of the `VIRTIO_GPU_CMD_` numbers).
    pub type_: u32,
    pub flags: u32,
}

pub open spec fn hdr(type_: u32) -> VirtioGpuCtrlHdr {
    VirtioGpuCtrlHdr { type_, flags: 0 }
}

/// Command: Creates a 2D resource.
#[derive(Debug, Clone, Copy, PartialEq, Eq, Structural)]
pub struct VirtioGpuCmdResourceCreate2D {
    pub hdr: VirtioGpuCtrlHdr,
    pub resource_id: u32,
    pub _padding1: u32,
    pub width: u32,
    pub height: u32,
    pub format: u32,
    pub flags: u32,
}

impl VirtioGpuCmdResourceCreate2D {
    /// A RESOURCE CREATE 2D command.
    pub fn new(resource_id: u32, width: u32, height: u32, format: u32) -> (c: Self)
        ensures
            c.hdr == hdr(VIRTIO_GPU_CMD_RESOURCE_CREATE_2D),
            c.resource_id == resource_id,
            c.width == width,
            c.height == height,
            c.format == format,
            c._padding1 == 0,
            c.flags == 0,
    {
        VirtioGpuCmdResourceCreate2D {
            hdr: VirtioGpuCtrlHdr { type_: VIRTIO_GPU_CMD_RESOURCE_CREATE_2D, flags: 0 },
            resource_id,
            _padding1: 0,
            width,
            height,
            format,
            flags: 0,
        }
    }
}

/// Command: Shows a resource on a scanout.
#[derive(Debug, Clone, Copy, PartialEq, Eq, Structural)]
pub struct VirtioGpuCmdSetScanout {
    pub hdr: VirtioGpuCtrlHdr,
    pub scanout_id: u32,
    pub resource_id: u32,
    pub x: u32,
    pub y: u32,
    pub width: u32,
    pub height: u32,
}

impl VirtioGpuCmdSetScanout {
    /// A SET SCANOUT command.
    pub fn new(scanout_id: u32, resource_id: u32, x: u32, y: u32, width: u32, height: u32) -> (c: Self)
        ensures
            c.hdr == hdr(VIRTIO_GPU_CMD_SET_SCANOUT),
            c.scanout_id == scanout_id,
            c.resource_id == resource_id,
            c.x == x,
            c.y == y,
            c.width == width,
            c.height == height,
    {
        VirtioGpuCmdSetScanout {
            hdr: VirtioGpuCtrlHdr { type_: VIRTIO_GPU_CMD_SET_SCANOUT, flags: 0 },
            scanout_id,
            resource_id,
            x,
            y,
            width,
            height,
        }
    }
}

/// Command: Copies a rectangle of guest memory to a resource.
#[derive(Debug, Clone, Copy, PartialEq, Eq, Structural)]
pub struct VirtioGpuCmdTransferToHost2D {
    pub hdr: VirtioGpuCtrlHdr,
    pub resource_id: u32,
    pub _padding1: u32,
    pub offset: u64,
    pub x: u32,
    pub y: u32,
    pub width: u32,
    pub height: u32,
}

impl VirtioGpuCmdTransferToHost2D {
    /// A TRANSFER TO HOST 2D command.
    pub fn new(resource_id: u32, offset: u64, x: u32, y: u32, width: u32, height: u32) -> (c: Self)
        ensures
            c.hdr == hdr(VIRTIO_GPU_CMD_TRANSFER_TO_HOST_2D),
            c.resource_id == resource_id,
            c.offset == offset,
            c.x == x,
            c.y == y,
            c.width == width,
            c.height == height,
            c._padding1 == 0,
    {
        VirtioGpuCmdTransferToHost2D {
            hdr: VirtioGpuCtrlHdr { type_: VIRTIO_GPU_CMD_TRANSFER_TO_HOST_2D, flags: 0 },
            resource_id,
            _padding1: 0,
            offset,
            x,
            y,
            width,
            height,
        }
    }
}

/// Command: Flushes a rectangle of a resource to the screen.
#[derive(Debug, Clone, Copy, PartialEq, Eq, Structural)]
pub struct VirtioGpuCmdFlush {
    pub hdr: VirtioGpuCtrlHdr,
    pub resource_id: u32,
    pub _padding1: u32,
    pub x: u32,
    pub y: u32,
    pub width: u32,
    pub height: u32,
}

impl VirtioGpuCmdFlush {
    /// A FLUSH command.
    pub fn new(resource_id: u32, x: u32, y: u32, width: u32, height: u32) -> (c: Self)
        ensures
            c.hdr == hdr(VIRTIO_GPU_CMD_FLUSH),
            c.resource_id == resource_id,
            c.x == x,
            c.y == y,
            c.width == width,
            c.height == height,
            c._padding1 == 0,
    {
        VirtioGpuCmdFlush {
            hdr: VirtioGpuCtrlHdr { type_: VIRTIO_GPU_CMD_FLUSH, flags: 0 },
            resource_id,
            _padding1: 0,
            x,
            y,
            width,
            height,
        }
    }
}

/// Command: Attaches guest memory to a resource; the entries follow it.
#[derive(Debug, Clone, Copy, PartialEq, Eq, Structural)]
pub struct VirtioGpuCmdAttachBacking {
    pub hdr: VirtioGpuCtrlHdr,
    pub resource_id: u32,
    pub _padding1: u32,
    pub nr_entries: u32,
    pub _padding2: u32,
}

impl VirtioGpuCmdAttachBacking {
    /// A ATTACH BACKING command.
    pub fn new(resource_id: u32, nr_entries: u32) -> (c: Self)
        ensures
            c.hdr == hdr(VIRTIO_GPU_CMD_ATTACH_BACKING),
            c.resource_id == resource_id,
            c.nr_entries == nr_entries,
            c._padding1 == 0,
            c._padding2 == 0,
    {
        VirtioGpuCmdAttachBacking {
            hdr: VirtioGpuCtrlHdr { type_: VIRTIO_GPU_CMD_ATTACH_BACKING, flags: 0 },
            resource_id,
            _padding1: 0,
            nr_entries,
            _padding2: 0,
        }
    }
}

/// A region of guest memory backing a resource.
#[derive(Debug, Clone, Copy, PartialEq, Eq, Structural)]
pub struct VirtioGpuMemEntry {
    /// Guest physical address.
    pub addr: u64,
    pub length: u32,
    pub _padding: u32,
}

impl VirtioGpuMemEntry {
    /// A region of `length` bytes at `addr`.
    pub fn new(addr: u64, length: u32) -> (e: Self)
        ensures
            e.addr == addr,
            e.length == length,
            e._padding == 0,
    {
        VirtioGpuMemEntry { addr, length, _padding: 0 }
    }
}

/// One display as GET_DISPLAY_INFO describes it.
#[derive(Debug, Clone, Copy, PartialEq, Eq, Structural)]
pub struct VirtioGpuDisplayOne {
    pub x: u32,
    pub y: u32,
    pub width: u32,
    pub height: u32,
    pub enabled: u32,
    pub flags: u32,
}

/// Response: the displays of the device (up to 16).
#[derive(Debug, Clone, Copy)]
pub struct VirtioGpuRespDisplayInfo {
    pub hdr: VirtioGpuCtrlHdr,
    pub displays: [VirtioGpuDisplayOne; 16],
}

/// Response: success, with nothing more.
#[derive(Debug, Clone, Copy, PartialEq, Eq, Structural)]
pub struct VirtioGpuRespOk {
    pub hdr: VirtioGpuCtrlHdr,
}

/// The configuration space of the device.
#[derive(Debug, Clone, Copy, PartialEq, Eq, Structural)]
pub struct VirtioGpuConfig {
    /// Number of scanouts.
    pub num_scanouts: u32,
    /// Number of capability sets.
    pub num_capsets: u32,
}

} // verus!

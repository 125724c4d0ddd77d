//! The state of one open DRM device node and the decisions of its control
//! ioctls: the version, device capabilities, client capabilities and the
//! master role.
use vstd::prelude::*;

use crate::error::Errno;

verus! {

/// What a client has told its open file that it understands.
#[derive(Debug, Clone, Copy, PartialEq, Eq, Structural)]
pub struct DrmFileCaps {
    /// Stereo 3D mode flags.
    pub has_stereo: bool,
    /// Primary and cursor planes in the plane list.
    pub has_universal_planes: bool,
    /// Atomic properties.
    pub has_atomic: bool,
    /// Picture aspect ratios in modes.
    pub has_aspect_ratio: bool,
    /// Writeback connectors.
    pub has_writeback_connectors: bool,
    /// Cursor planes as virtualized drivers restrict them.
    pub has_virtualized_cursor_plane: bool,
}

impl DrmFileCaps {
    /// A client that has told nothing.
    pub open spec fn spec_none() -> DrmFileCaps {
        DrmFileCaps {
            has_stereo: false,
            has_universal_planes: false,
            has_atomic: false,
            has_aspect_ratio: false,
            has_writeback_connectors: false,
            has_virtualized_cursor_plane: false,
        }
    }
}

impl Default for DrmFileCaps {
    fn default() -> (c: Self)
        ensures
            c == DrmFileCaps::spec_none(),
    {
        DrmFileCaps {
            has_stereo: false,
            has_universal_planes: false,
            has_atomic: false,
            has_aspect_ratio: false,
            has_writeback_connectors: false,
            has_virtualized_cursor_plane: false,
        }
    }
}

/// The driver features that the control ioctls ask about.
#[derive(Debug, Clone, Copy, PartialEq, Eq, Structural)]
pub struct DrmDeviceFeatures {
    pub modeset: bool,
    pub atomic: bool,
    pub syncobj: bool,
    pub syncobj_timeline: bool,
    pub cursor_hotspot: bool,
}

/// The capabilities and limits a device reports.
#[derive(Debug, Clone, Copy, PartialEq, Eq, Structural)]
pub struct DrmDeviceCaps {
    pub has_dumb_buffer: bool,
    pub preferred_color_depth_px: u32,
    pub prefer_shadow_buffer: bool,
    pub has_async_page_flip: bool,
    pub has_flip_target: bool,
    pub cursor_width_px: u32,
    pub cursor_height_px: u32,
    pub has_fb_modifiers: bool,
    pub min_fb_width_px: u32,
    pub max_fb_width_px: u32,
    pub min_fb_height_px: u32,
    pub max_fb_height_px: u32,
}

/// Device capabilities a client can ask about (`DRM_CAP_*`).
#[derive(Debug, Clone, Copy, PartialEq, Eq, Structural)]
pub enum DrmGetCapability {
    DumbBuffer,
    VblankHighCrtc,
    DumbPreferredDepth,
    DumbPreferShadow,
    Prime,
    TimestampMonotonic,
    AsyncPageFlip,
    CursorWidth,
    CursorHeight,
    Addfb2Modifiers,
    PageFlipTarget,
    CrtcInVblankEvent,
    SyncObj,
    SyncObjTimeline,
    AtomicAsyncPageFlip,
}

impl DrmGetCapability {
    /// The capability numbered `raw`, if any.
    pub open spec fn spec_from_raw(raw: u64) -> Option<DrmGetCapability> {
        if raw == 0x1 {
            Some(DrmGetCapability::DumbBuffer)
        } else if raw == 0x2 {
            Some(DrmGetCapability::VblankHighCrtc)
        } else if raw == 0x3 {
            Some(DrmGetCapability::DumbPreferredDepth)
        } else if raw == 0x4 {
            Some(DrmGetCapability::DumbPreferShadow)
        } else if raw == 0x5 {
            Some(DrmGetCapability::Prime)
        } else if raw == 0x6 {
            Some(DrmGetCapability::TimestampMonotonic)
        } else if raw == 0x7 {
            Some(DrmGetCapability::AsyncPageFlip)
        } else if raw == 0x8 {
            Some(DrmGetCapability::CursorWidth)
        } else if raw == 0x9 {
            Some(DrmGetCapability::CursorHeight)
        } else if raw == 0x10 {
            Some(DrmGetCapability::Addfb2Modifiers)
        } else if raw == 0x11 {
            Some(DrmGetCapability::PageFlipTarget)
        } else if raw == 0x12 {
            Some(DrmGetCapability::CrtcInVblankEvent)
        } else if raw == 0x13 {
            Some(DrmGetCapability::SyncObj)
        } else if raw == 0x14 {
            Some(DrmGetCapability::SyncObjTimeline)
        } else if raw == 0x15 {
            Some(DrmGetCapability::AtomicAsyncPageFlip)
        } else {
            None
        }
    }

    /// Decodes a capability number.
    pub fn from_raw(raw: u64) -> (r: Option<DrmGetCapability>)
        ensures
            r == Self::spec_from_raw(raw),
    {
        match raw {
            0x1 => Some(DrmGetCapability::DumbBuffer),
            0x2 => Some(DrmGetCapability::VblankHighCrtc),
            0x3 => Some(DrmGetCapability::DumbPreferredDepth),
            0x4 => Some(DrmGetCapability::DumbPreferShadow),
            0x5 => Some(DrmGetCapability::Prime),
            0x6 => Some(DrmGetCapability::TimestampMonotonic),
            0x7 => Some(DrmGetCapability::AsyncPageFlip),
            0x8 => Some(DrmGetCapability::CursorWidth),
            0x9 => Some(DrmGetCapability::CursorHeight),
            0x10 => Some(DrmGetCapability::Addfb2Modifiers),
            0x11 => Some(DrmGetCapability::PageFlipTarget),
            0x12 => Some(DrmGetCapability::CrtcInVblankEvent),
            0x13 => Some(DrmGetCapability::SyncObj),
            0x14 => Some(DrmGetCapability::SyncObjTimeline),
            0x15 => Some(DrmGetCapability::AtomicAsyncPageFlip),
            _ => None,
        }
    }
}

/// PRIME buffer sharing support: import and export.
pub const DRM_PRIME_CAP_IMPORT_EXPORT: u64 = 0x3;

/// The value reported for capability `cap`; the mode-setting capabilities
/// need a mode-setting driver.
pub open spec fn cap_value_spec(cap: DrmGetCapability, features: DrmDeviceFeatures, caps: DrmDeviceCaps) -> Result<u64, Errno> {
    match cap {
        DrmGetCapability::TimestampMonotonic => Ok(1),
        DrmGetCapability::Prime => Ok(3),
        DrmGetCapability::SyncObj => Ok(if features.syncobj { 1 } else { 0 }),
        DrmGetCapability::SyncObjTimeline => Ok(if features.syncobj_timeline { 1 } else { 0 }),
        _ => if !features.modeset {
            Err(Errno::EOPNOTSUPP)
        } else {
            Ok(
                match cap {
                    DrmGetCapability::DumbBuffer => if caps.has_dumb_buffer { 1 } else { 0 },
                    DrmGetCapability::VblankHighCrtc => 1,
                    DrmGetCapability::DumbPreferredDepth => caps.preferred_color_depth_px as u64,
                    DrmGetCapability::DumbPreferShadow => if caps.prefer_shadow_buffer { 1 } else { 0 },
                    DrmGetCapability::AsyncPageFlip => if caps.has_async_page_flip { 1 } else { 0 },
                    DrmGetCapability::PageFlipTarget => if caps.has_flip_target { 1 } else { 0 },
                    DrmGetCapability::CursorWidth => caps.cursor_width_px as u64,
                    DrmGetCapability::CursorHeight => caps.cursor_height_px as u64,
                    DrmGetCapability::Addfb2Modifiers => if caps.has_fb_modifiers { 1 } else { 0 },
                    DrmGetCapability::CrtcInVblankEvent => 1,
                    DrmGetCapability::AtomicAsyncPageFlip => if features.atomic && caps.has_async_page_flip {
                        1
                    } else {
                        0
                    },
                    _ => 0,
                },
            )
        },
    }
}

/// Answers `DRM_IOCTL_GET_CAP` for capability number `raw`; an unknown
/// number is invalid.
pub fn get_cap_value(raw: u64, features: &DrmDeviceFeatures, caps: &DrmDeviceCaps) -> (r: Result<u64, Errno>)
    ensures
        r == match DrmGetCapability::spec_from_raw(raw) {
            None => Err(Errno::EINVAL),
            Some(cap) => cap_value_spec(cap, *features, *caps),
        },
{
    let cap = match DrmGetCapability::from_raw(raw) {
        Some(cap) => cap,
        None => {
            return Err(Errno::EINVAL);
        },
    };
    match cap {
        DrmGetCapability::TimestampMonotonic => Ok(1),
        DrmGetCapability::Prime => Ok(DRM_PRIME_CAP_IMPORT_EXPORT),
        DrmGetCapability::SyncObj => Ok(if features.syncobj { 1 } else { 0 }),
        DrmGetCapability::SyncObjTimeline => Ok(if features.syncobj_timeline { 1 } else { 0 }),
        _ => {
            if !features.modeset {
                return Err(Errno::EOPNOTSUPP);
            }
            let value: u64 = match cap {
                DrmGetCapability::DumbBuffer => if caps.has_dumb_buffer { 1 } else { 0 },
                DrmGetCapability::VblankHighCrtc => 1,
                DrmGetCapability::DumbPreferredDepth => caps.preferred_color_depth_px as u64,
                DrmGetCapability::DumbPreferShadow => if caps.prefer_shadow_buffer { 1 } else { 0 },
                DrmGetCapability::AsyncPageFlip => if caps.has_async_page_flip { 1 } else { 0 },
                DrmGetCapability::PageFlipTarget => if caps.has_flip_target { 1 } else { 0 },
                DrmGetCapability::CursorWidth => caps.cursor_width_px as u64,
                DrmGetCapability::CursorHeight => caps.cursor_height_px as u64,
                DrmGetCapability::Addfb2Modifiers => if caps.has_fb_modifiers { 1 } else { 0 },
                DrmGetCapability::CrtcInVblankEvent => 1,
                DrmGetCapability::AtomicAsyncPageFlip => if features.atomic && caps.has_async_page_flip {
                    1
                } else {
                    0
                },
                _ => 0,
            };
            Ok(value)
        },
    }
}

/// Client capabilities a client can set (`DRM_CLIENT_CAP_*`).
#[derive(Debug, Clone, Copy, PartialEq, Eq, Structural)]
pub enum DrmSetCapability {
    Stereo3D,
    UniversalPlane,
    Atomic,
    AspectRatio,
    WritebackConnectors,
    CursorPlaneHostport,
}

impl DrmSetCapability {
    /// The client capability numbered `raw`, if any.
    pub open spec fn spec_from_raw(raw: u64) -> Option<DrmSetCapability> {
        if raw == 0x1 {
            Some(DrmSetCapability::Stereo3D)
        } else if raw == 0x2 {
            Some(DrmSetCapability::UniversalPlane)
        } else if raw == 0x3 {
            Some(DrmSetCapability::Atomic)
        } else if raw == 0x4 {
            Some(DrmSetCapability::AspectRatio)
        } else if raw == 0x5 {
            Some(DrmSetCapability::WritebackConnectors)
        } else if raw == 0x6 {
            Some(DrmSetCapability::CursorPlaneHostport)
        } else {
            None
        }
    }

    /// Decodes a client capability number.
    pub fn from_raw(raw: u64) -> (r: Option<DrmSetCapability>)
        ensures
            r == Self::spec_from_raw(raw),
    {
        match raw {
            0x1 => Some(DrmSetCapability::Stereo3D),
            0x2 => Some(DrmSetCapability::UniversalPlane),
            0x3 => Some(DrmSetCapability::Atomic),
            0x4 => Some(DrmSetCapability::AspectRatio),
            0x5 => Some(DrmSetCapability::WritebackConnectors),
            0x6 => Some(DrmSetCapability::CursorPlaneHostport),
            _ => None,
        }
    }
}

/// The client capabilities after setting `cap` to `value`, or why not.
/// Flags take 0 or 1; atomic takes 0 to 2 and also sets universal planes,
/// and at 2 aspect ratios; writeback needs atomic first.
pub open spec fn client_cap_spec(caps: DrmFileCaps, cap: DrmSetCapability, value: u64, features: DrmDeviceFeatures) -> Result<
    DrmFileCaps,
    Errno,
> {
    match cap {
        DrmSetCapability::Stereo3D => if value <= 1 {
            Ok(DrmFileCaps { has_stereo: value == 1, ..caps })
        } else {
            Err(Errno::EINVAL)
        },
        DrmSetCapability::UniversalPlane => if value <= 1 {
            Ok(DrmFileCaps { has_universal_planes: value == 1, ..caps })
        } else {
            Err(Errno::EINVAL)
        },
        DrmSetCapability::Atomic => if !features.atomic {
            Err(Errno::EOPNOTSUPP)
        } else if value <= 2 {
            Ok(DrmFileCaps { has_atomic: value >= 1, has_universal_planes: value >= 1, has_aspect_ratio: value == 2, ..caps })
        } else {
            Err(Errno::EINVAL)
        },
        DrmSetCapability::AspectRatio => if value <= 1 {
            Ok(DrmFileCaps { has_aspect_ratio: value == 1, ..caps })
        } else {
            Err(Errno::EINVAL)
        },
        DrmSetCapability::WritebackConnectors => if !caps.has_atomic {
            Err(Errno::EINVAL)
        } else if value <= 1 {
            Ok(DrmFileCaps { has_writeback_connectors: value == 1, ..caps })
        } else {
            Err(Errno::EINVAL)
        },
        DrmSetCapability::CursorPlaneHostport => if !features.cursor_hotspot && caps.has_atomic {
            Err(Errno::EOPNOTSUPP)
        } else if value <= 1 {
            Ok(DrmFileCaps { has_virtualized_cursor_plane: value == 1, ..caps })
        } else {
            Err(Errno::EINVAL)
        },
    }
}

impl DrmFileCaps {
    /// Handles `DRM_IOCTL_SET_CLIENT_CAP`; on failure nothing changes, and
    /// an unknown capability is invalid.
    pub fn set_client_cap(&mut self, raw: u64, value: u64, features: &DrmDeviceFeatures) -> (r: Result<(), Errno>)
        ensures
            match DrmSetCapability::spec_from_raw(raw) {
                None => r == Err::<(), Errno>(Errno::EINVAL) && *final(self) == *old(self),
                Some(cap) => match client_cap_spec(*old(self), cap, value, *features) {
                    Ok(next) => r is Ok && *final(self) == next,
                    Err(e) => r == Err::<(), Errno>(e) && *final(self) == *old(self),
                },
            },
    {
        let cap = match DrmSetCapability::from_raw(raw) {
            Some(cap) => cap,
            None => {
                return Err(Errno::EINVAL);
            },
        };
        match cap {
            DrmSetCapability::Stereo3D => {
                if value > 1 {
                    return Err(Errno::EINVAL);
                }
                self.has_stereo = value == 1;
            },
            DrmSetCapability::UniversalPlane => {
                if value > 1 {
                    return Err(Errno::EINVAL);
                }
                self.has_universal_planes = value == 1;
            },
            DrmSetCapability::Atomic => {
                if !features.atomic {
                    return Err(Errno::EOPNOTSUPP);
                }
                if value > 2 {
                    return Err(Errno::EINVAL);
                }
                self.has_atomic = value >= 1;
                self.has_universal_planes = value >= 1;
                self.has_aspect_ratio = value == 2;
            },
            DrmSetCapability::AspectRatio => {
                if value > 1 {
                    return Err(Errno::EINVAL);
                }
                self.has_aspect_ratio = value == 1;
            },
            DrmSetCapability::WritebackConnectors => {
                if !self.has_atomic {
                    return Err(Errno::EINVAL);
                }
                if value > 1 {
                    return Err(Errno::EINVAL);
                }
                self.has_writeback_connectors = value == 1;
            },
            DrmSetCapability::CursorPlaneHostport => {
                if !features.cursor_hotspot && self.has_atomic {
                    return Err(Errno::EOPNOTSUPP);
                }
                if value > 1 {
                    return Err(Errno::EINVAL);
                }
                self.has_virtualized_cursor_plane = value == 1;
            },
        }
        Ok(())
    }
}

/// Master-management state of an open file.
#[derive(Debug, Clone, Copy, PartialEq, Eq, Structural)]
pub struct DrmFileAuthState {
    /// The process that owns the file for master checks.
    pub owner_process_pid: u32,
    /// Whether the file has ever become master.
    pub was_master: bool,
    /// Whether the file is authenticated on the primary node.
    pub authenticated: bool,
}

/// The state after an ioctl by process `current_pid` (if there is a
/// process): it becomes the owner unless the file has been master.
pub open spec fn owner_updated(s: DrmFileAuthState, current_pid: Option<u32>) -> DrmFileAuthState {
    if !s.was_master && current_pid is Some {
        DrmFileAuthState { owner_process_pid: current_pid.unwrap(), ..s }
    } else {
        s
    }
}

/// Whether the caller may take or drop the master role.
pub open spec fn master_perm(s: DrmFileAuthState, is_sys_admin: bool, current_pid: Option<u32>) -> bool {
    is_sys_admin || (s.was_master && current_pid == Some(s.owner_process_pid))
}

impl DrmFileAuthState {
    /// The state of a file opened by process `owner_process_pid`, master
    /// from the start or not.
    pub fn new(owner_process_pid: u32, is_master: bool) -> (s: Self)
        ensures
            s == (DrmFileAuthState { owner_process_pid, was_master: is_master, authenticated: is_master }),
    {
        DrmFileAuthState { owner_process_pid, was_master: is_master, authenticated: is_master }
    }

    /// Follows the calling process while the file has never been master,
    /// so that passing the file on moves its ownership; after that the
    /// owner stays fixed.
    pub fn update_owner_process(&mut self, current_pid: Option<u32>)
        ensures
            *final(self) == owner_updated(*old(self), current_pid),
    {
        if self.was_master {
            return;
        }
        if let Some(pid) = current_pid {
            self.owner_process_pid = pid;
        }
    }

    /// Whether the caller may take or drop the master role: an
    /// administrator may; otherwise only the owner of a file that has been
    /// master before.
    pub fn master_check_perm(&self, is_sys_admin: bool, current_pid: Option<u32>) -> (ok: bool)
        ensures
            ok == master_perm(*self, is_sys_admin, current_pid),
    {
        if is_sys_admin {
            return true;
        }
        let is_same_process = match current_pid {
            Some(pid) => pid == self.owner_process_pid,
            None => false,
        };
        self.was_master && is_same_process
    }

    /// Whether the file is authenticated: the master is.
    pub fn is_authenticated(&self, is_master: bool) -> (ok: bool)
        ensures
            ok == (is_master || self.authenticated),
    {
        is_master || self.authenticated
    }

    /// Checks `DRM_IOCTL_SET_MASTER` before the role is taken.
    pub fn check_set_master(&self, is_sys_admin: bool, current_pid: Option<u32>) -> (r: Result<(), Errno>)
        ensures
            r is Ok <==> (is_sys_admin || (self.was_master && current_pid == Some(self.owner_process_pid))),
            r is Err ==> r == Err::<(), Errno>(Errno::EACCES),
    {
        if !self.master_check_perm(is_sys_admin, current_pid) {
            return Err(Errno::EACCES);
        }
        Ok(())
    }

    /// Records that the file took the master role.
    pub fn master_taken(&mut self)
        ensures
            *final(self) == (DrmFileAuthState { was_master: true, authenticated: true, ..*old(self) }),
    {
        self.was_master = true;
        self.authenticated = true;
    }

    /// Checks `DRM_IOCTL_DROP_MASTER`: the caller needs the permission, and
    /// the file must be master.
    pub fn check_drop_master(&self, is_sys_admin: bool, current_pid: Option<u32>, is_master: bool) -> (r: Result<
        (),
        Errno,
    >)
        ensures
            r == (if !(is_sys_admin || (self.was_master && current_pid == Some(self.owner_process_pid))) {
                Err(Errno::EACCES)
            } else if !is_master {
                Err(Errno::EINVAL)
            } else {
                Ok(())
            }),
    {
        if !self.master_check_perm(is_sys_admin, current_pid) {
            return Err(Errno::EACCES);
        }
        if !is_master {
            return Err(Errno::EINVAL);
        }
        Ok(())
    }
}

/// Who holds the master role after file `file_id` asks for it while
/// `holder` holds it: a free role goes to the file, a file keeps its own,
/// and a role held by another file is busy.
pub fn master_after_set(holder: Option<u32>, file_id: u32) -> (r: Result<u32, Errno>)
    ensures
        r == (match holder {
            None => Ok::<u32, Errno>(file_id),
            Some(h) => if h == file_id {
                Ok::<u32, Errno>(file_id)
            } else {
                Err::<u32, Errno>(Errno::EBUSY)
            },
        }),
{
    match holder {
        None => Ok(file_id),
        Some(h) => if h == file_id {
            Ok(file_id)
        } else {
            Err(Errno::EBUSY)
        },
    }
}

/// The argument of `DRM_IOCTL_VERSION`: the version, and for the name, date
/// and description a buffer address and its length.
#[derive(Debug, Clone, Copy, PartialEq, Eq, Structural)]
pub struct DrmVersion {
    pub version_major: i32,
    pub version_minor: i32,
    pub version_patchlevel: i32,
    pub name_len: usize,
    pub name: usize,
    pub date_len: usize,
    pub date: usize,
    pub desc_len: usize,
    pub desc: usize,
}

/// How many bytes of the name, description and date to copy to the
/// client's buffers; none for a buffer of length 0.
#[derive(Debug, Clone, Copy, PartialEq, Eq, Structural)]
pub struct DrmVersionWrites {
    pub name: Option<usize>,
    pub desc: Option<usize>,
    pub date: Option<usize>,
}

/// The legacy date string reported by `DRM_IOCTL_VERSION`.
pub const DRM_VERSION_DATE: &'static str = "0";

/// The number of bytes to copy of a field of `field_len` bytes into a
/// buffer of `buf_len` bytes: truncated, and none for an empty buffer.
pub open spec fn copy_len(buf_len: usize, field_len: usize) -> Option<usize> {
    if buf_len != 0 {
        Some(if buf_len < field_len { buf_len } else { field_len })
    } else {
        None
    }
}

/// Answers `DRM_IOCTL_VERSION` for a driver whose name and description
/// have `name_len` and `desc_len` bytes: each field is copied truncated to
/// its buffer, and the full lengths are reported, with version 0.0.0.
pub fn version_reply(args: DrmVersion, name_len: usize, desc_len: usize) -> (r: (DrmVersion, DrmVersionWrites))
    ensures
        r.1 == (DrmVersionWrites {
            name: copy_len(args.name_len, name_len),
            desc: copy_len(args.desc_len, desc_len),
            date: copy_len(args.date_len, 1),
        }),
        r.0 == (DrmVersion {
            version_major: 0,
            version_minor: 0,
            version_patchlevel: 0,
            name_len,
            desc_len,
            date_len: 1,
            ..args
        }),
{
    let date_len: usize = 1;
    let name_write = if args.name_len != 0 {
        Some(if args.name_len < name_len { args.name_len } else { name_len })
    } else {
        None
    };
    let desc_write = if args.desc_len != 0 {
        Some(if args.desc_len < desc_len { args.desc_len } else { desc_len })
    } else {
        None
    };
    let date_write = if args.date_len != 0 {
        Some(if args.date_len < date_len { args.date_len } else { date_len })
    } else {
        None
    };
    let reply = DrmVersion {
        version_major: 0,
        version_minor: 0,
        version_patchlevel: 0,
        name_len,
        name: args.name,
        date_len,
        date: args.date,
        desc_len,
        desc: args.desc,
    };
    (reply, DrmVersionWrites { name: name_write, desc: desc_write, date: date_write })
}

/// Asking for atomic properties (at level 1 or 2) also turns on universal
/// planes, on a device that supports atomic mode setting.
pub proof fn law_atomic_sets_universal_planes(caps: DrmFileCaps, value: u64, features: DrmDeviceFeatures)
    requires
        features.atomic,
        1 <= value <= 2,
    ensures
        (client_cap_spec(caps, DrmSetCapability::Atomic, value, features) matches Ok(c) && c.has_atomic
            && c.has_universal_planes && c.has_aspect_ratio == (value == 2)),
{
}

/// Once a file has been master, ioctls from other processes no longer move
/// its ownership, so the owning process can always take the role again.
pub proof fn law_master_owner_frozen(s: DrmFileAuthState, current_pid: Option<u32>)
    requires
        s.was_master,
    ensures
        owner_updated(s, current_pid) == s,
        master_perm(owner_updated(s, current_pid), false, Some(s.owner_process_pid)),
{
}

/// A successful flag request changes only the flag it names; writeback
/// connectors can only be asked for after atomic properties.
pub proof fn law_client_cap_only_touches_its_flags(caps: DrmFileCaps, value: u64, features: DrmDeviceFeatures)
    ensures
        (client_cap_spec(caps, DrmSetCapability::Stereo3D, value, features) matches Ok(c) ==> c == (DrmFileCaps {
            has_stereo: c.has_stereo,
            ..caps
        })),
        (client_cap_spec(caps, DrmSetCapability::AspectRatio, value, features) matches Ok(c) ==> c == (DrmFileCaps {
            has_aspect_ratio: c.has_aspect_ratio,
            ..caps
        })),
        (client_cap_spec(caps, DrmSetCapability::WritebackConnectors, value, features) matches Ok(c) ==> caps.has_atomic
            && c == (DrmFileCaps { has_writeback_connectors: c.has_writeback_connectors, ..caps })),
{
}

/// What `DRM_IOCTL_GET_CAP` reports, by capability number, in terms of the
/// device: a mode-setting device reports whether it has dumb buffers (1),
/// prefers a shadow buffer (4), flips asynchronously (7), flips to a target
/// (0x11) and takes format modifiers (0x10) as 1 or 0, its preferred depth
/// (3) and cursor size (8, 9) as numbers, and 1 for high-CRTC vblanks (2)
/// and CRTCs in vblank events (0x12); a device that does not set modes
/// refuses those. Any device reports monotonic timestamps (6), both prime
/// directions (5) and its sync-object support (0x13, 0x14). Numbers that
/// name no capability are invalid.
pub proof fn law_get_cap_reports_device(raw: u64, f: DrmDeviceFeatures, c: DrmDeviceCaps)
    ensures
        ({
            let r = match DrmGetCapability::spec_from_raw(raw) {
                None => Err(Errno::EINVAL),
                Some(cap) => cap_value_spec(cap, f, c),
            };
            let b = |x: bool| if x { 1u64 } else { 0u64 };
            &&& raw == 0x5 ==> r == Ok::<u64, Errno>(3)
            &&& raw == 0x6 ==> r == Ok::<u64, Errno>(1)
            &&& raw == 0x13 ==> r == Ok::<u64, Errno>(b(f.syncobj))
            &&& raw == 0x14 ==> r == Ok::<u64, Errno>(b(f.syncobj_timeline))
            &&& (raw == 0 || raw > 0x15 || (0xa <= raw <= 0xf)) ==> r == Err::<u64, Errno>(Errno::EINVAL)
            &&& f.modeset ==> {
                &&& raw == 0x1 ==> r == Ok::<u64, Errno>(b(c.has_dumb_buffer))
                &&& raw == 0x2 ==> r == Ok::<u64, Errno>(1)
                &&& raw == 0x3 ==> r == Ok::<u64, Errno>(c.preferred_color_depth_px as u64)
                &&& raw == 0x4 ==> r == Ok::<u64, Errno>(b(c.prefer_shadow_buffer))
                &&& raw == 0x7 ==> r == Ok::<u64, Errno>(b(c.has_async_page_flip))
                &&& raw == 0x8 ==> r == Ok::<u64, Errno>(c.cursor_width_px as u64)
                &&& raw == 0x9 ==> r == Ok::<u64, Errno>(c.cursor_height_px as u64)
                &&& raw == 0x10 ==> r == Ok::<u64, Errno>(b(c.has_fb_modifiers))
                &&& raw == 0x11 ==> r == Ok::<u64, Errno>(b(c.has_flip_target))
                &&& raw == 0x12 ==> r == Ok::<u64, Errno>(1)
                &&& raw == 0x15 ==> r == Ok::<u64, Errno>(b(f.atomic && c.has_async_page_flip))
            }
            &&& !f.modeset && (1 <= raw <= 4 || 7 <= raw <= 9 || 0x10 <= raw <= 0x12 || raw == 0x15) ==> r
                == Err::<u64, Errno>(Errno::EOPNOTSUPP)
        }),
{
}

} // verus!

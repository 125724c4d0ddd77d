//! The simple mode-setting path: one CRTC, one encoder and one connector
//! with fixed ids, and the framebuffers of its manager.
use vstd::prelude::*;

use crate::error::Errno;
use crate::ioctl_defs::{
    DrmGetCap, DrmModeCardRes, DrmModeCrtc, DrmModeGetConnector, DrmModeGetEncoder, DrmModeModeInfo, DrmModePageFlip,
    DrmVersion, DRM_CAP_DUMB_BUFFER, DRM_CAP_DUMB_PREFERRED_DEPTH, DRM_CAP_VBLANK_HIGH_CRTC, DRM_MODE_ENCODER_TMDS,
};

verus! {

/// The id of the only CRTC.
pub const CRTC_ID: u32 = 1;

/// The id of the only encoder.
pub const ENCODER_ID: u32 = 1;

/// The id of the only connector.
pub const CONNECTOR_ID: u32 = 1;

/// The driver's name, with its terminating zero.
pub open spec fn driver_name() -> Seq<u8> {
    seq![65u8, 115, 116, 101, 114, 105, 110, 97, 115, 83, 105, 109, 112, 108, 101, 68, 114, 109, 0]
}

/// The driver's description, with its terminating zero.
pub open spec fn driver_desc() -> Seq<u8> {
    seq![83u8, 105, 109, 112, 108, 101, 32, 68, 82, 77, 32, 100, 114, 105, 118, 101, 114, 32, 102, 111, 114, 32, 65, 115, 116, 101, 114, 105, 110, 97, 115, 32, 79, 83, 0]
}

/// The driver's date, with its terminating zero.
pub open spec fn driver_date() -> Seq<u8> {
    seq![50u8, 48, 50, 54, 48, 52, 49, 51, 0]
}

/// `text` cut to `n` bytes and padded with zeros to `n`.
pub open spec fn text_field(text: Seq<u8>, n: nat) -> Seq<u8> {
    Seq::new(n, |i: int| if i < text.len() { text[i] } else { 0u8 })
}

/// The version of the simple path: 1.0.0, with its name, description and
/// date, each cut to its field.
pub fn handle_version() -> (v: DrmVersion)
    ensures
        v.version_major == 1 && v.version_minor == 0 && v.version_patchlevel == 0,
        v.name@ == text_field(driver_name(), 64),
        v.desc@ == text_field(driver_desc(), 32),
        v.date@ == text_field(driver_date(), 32),
{
    let name: [u8; 64] = [65, 115, 116, 101, 114, 105, 110, 97, 115, 83, 105, 109, 112, 108, 101, 68, 114, 109, 0, 0, 0, 0, 0, 0, 0, 0, 0, 0, 0, 0, 0, 0, 0, 0, 0, 0, 0, 0, 0, 0, 0, 0, 0, 0, 0, 0, 0, 0, 0, 0, 0, 0, 0, 0, 0, 0, 0, 0, 0, 0, 0, 0, 0, 0];
    let desc: [u8; 32] = [83, 105, 109, 112, 108, 101, 32, 68, 82, 77, 32, 100, 114, 105, 118, 101, 114, 32, 102, 111, 114, 32, 65, 115, 116, 101, 114, 105, 110, 97, 115, 32];
    let date: [u8; 32] = [50, 48, 50, 54, 48, 52, 49, 51, 0, 0, 0, 0, 0, 0, 0, 0, 0, 0, 0, 0, 0, 0, 0, 0, 0, 0, 0, 0, 0, 0, 0, 0];
    assert(name@ =~= text_field(driver_name(), 64));
    assert(desc@ =~= text_field(driver_desc(), 32));
    assert(date@ =~= text_field(driver_date(), 32));
    DrmVersion { version_major: 1, version_minor: 0, version_patchlevel: 0, name, date, desc }
}

/// The size of the boot framebuffer as its one mode reports it, wrapped to
/// 16 bits.
pub open spec fn mode_size_fits(firmware: Option<(usize, usize)>) -> bool {
    match firmware {
        None => true,
        Some((w, h)) => (w as u16) * (h as u16) * 60 <= u32::MAX && (w as u16) + 168 <= u16::MAX && (h as u16) + 29
            <= u16::MAX,
    }
}

/// The mode of the simple path: that of the boot framebuffer of size
/// `firmware`, else 1024x768, at 60 Hz.
pub fn current_mode(firmware: Option<(usize, usize)>) -> (m: DrmModeModeInfo)
    requires
        mode_size_fits(firmware),
    ensures
        match firmware {
            None => m.hdisplay == 1024 && m.vdisplay == 768,
            Some((w, h)) => m.hdisplay == w as u16 && m.vdisplay == h as u16,
        },
        m.vrefresh == 60,
{
    match firmware {
        None => DrmModeModeInfo::new(1024, 768, 60),
        Some((w, h)) => DrmModeModeInfo::new(w as u16, h as u16, 60),
    }
}

/// Answers `DRM_IOCTL_GET_CAP` on the simple path: dumb buffers yes, no
/// high-CRTC vblank, depth 32; any other capability is invalid.
pub fn handle_get_cap(cap: DrmGetCap) -> (r: Result<DrmGetCap, Errno>)
    ensures
        r == (if cap.capability == 1 {
            Ok(DrmGetCap { value: 1, ..cap })
        } else if cap.capability == 2 {
            Ok(DrmGetCap { value: 0, ..cap })
        } else if cap.capability == 3 {
            Ok(DrmGetCap { value: 32, ..cap })
        } else {
            Err(Errno::EINVAL)
        }),
{
    let value = if cap.capability == DRM_CAP_DUMB_BUFFER {
        1
    } else if cap.capability == DRM_CAP_VBLANK_HIGH_CRTC {
        0
    } else if cap.capability == DRM_CAP_DUMB_PREFERRED_DEPTH {
        32
    } else {
        return Err(Errno::EINVAL);
    };
    Ok(DrmGetCap { value, ..cap })
}

/// Answers `DRM_IOCTL_MODE_GETRESOURCES` on the simple path for the
/// framebuffers `fb_ids`: one CRTC, encoder and connector, limits 64 to
/// 4096; returns the reply and the id writes (address, id) to make, in
/// order.
pub fn handle_get_resources(res: DrmModeCardRes, fb_ids: &Vec<u32>) -> (r: (DrmModeCardRes, Vec<(usize, u32)>))
    requires
        res.fb_id_ptr != 0 && fb_ids@.len() as u32 > 0 ==> res.fb_id_ptr + 4 * fb_ids@.len() <= usize::MAX,
    ensures
        r.0 == (DrmModeCardRes {
            count_crtcs: 1,
            count_encoders: 1,
            count_connectors: 1,
            count_fbs: fb_ids@.len() as u32,
            min_width: 64,
            max_width: 4096,
            min_height: 64,
            max_height: 4096,
            ..res
        }),
        r.1@ == resource_writes(res, fb_ids@),
{
    let count_fbs = fb_ids.len() as u32;
    let mut writes: Vec<(usize, u32)> = Vec::new();
    if res.crtc_id_ptr != 0 {
        writes.push((res.crtc_id_ptr as usize, CRTC_ID));
    }
    if res.encoder_id_ptr != 0 {
        writes.push((res.encoder_id_ptr as usize, ENCODER_ID));
    }
    if res.connector_id_ptr != 0 {
        writes.push((res.connector_id_ptr as usize, CONNECTOR_ID));
    }
    let ghost head = writes@;
    if res.fb_id_ptr != 0 && count_fbs > 0 {
        let base = res.fb_id_ptr as usize;
        let mut i: usize = 0;
        while i < fb_ids.len()
            invariant
                base == res.fb_id_ptr as usize,
                base + 4 * fb_ids@.len() <= usize::MAX,
                i <= fb_ids@.len(),
                writes@ == head + fb_writes(base, fb_ids@.take(i as int)),
            decreases fb_ids@.len() - i,
        {
            writes.push((base + i * 4, fb_ids[i]));
            i = i + 1;
            proof {
                assert(fb_writes(base, fb_ids@.take(i as int)) =~= fb_writes(base, fb_ids@.take(i - 1)).push(
                    ((base + (i - 1) * 4) as usize, fb_ids@[i - 1]),
                ));
            }
        }
        proof {
            assert(fb_ids@.take(i as int) =~= fb_ids@);
        }
    }
    proof {
        if !(res.fb_id_ptr != 0 && count_fbs > 0) {
            assert(writes@ =~= head + Seq::<(usize, u32)>::empty());
        }
    }
    let reply = DrmModeCardRes {
        count_crtcs: 1,
        count_encoders: 1,
        count_connectors: 1,
        count_fbs,
        min_width: 64,
        max_width: 4096,
        min_height: 64,
        max_height: 4096,
        ..res
    };
    (reply, writes)
}

/// The writes of the framebuffer ids `ids`, 4 bytes apart from `base`.
pub open spec fn fb_writes(base: usize, ids: Seq<u32>) -> Seq<(usize, u32)> {
    Seq::new(ids.len(), |i: int| ((base + i * 4) as usize, ids[i]))
}

/// The id writes of the resources reply: the CRTC, encoder and connector
/// ids to their buffers, then the framebuffer ids, each only with a buffer.
pub open spec fn resource_writes(res: DrmModeCardRes, fb_ids: Seq<u32>) -> Seq<(usize, u32)> {
    let crtc = if res.crtc_id_ptr != 0 { seq![(res.crtc_id_ptr as usize, 1u32)] } else { Seq::empty() };
    let encoder = if res.encoder_id_ptr != 0 { seq![(res.encoder_id_ptr as usize, 1u32)] } else { Seq::empty() };
    let connector = if res.connector_id_ptr != 0 { seq![(res.connector_id_ptr as usize, 1u32)] } else { Seq::empty() };
    let fbs = if res.fb_id_ptr != 0 && fb_ids.len() as u32 > 0 {
        fb_writes(res.fb_id_ptr as usize, fb_ids)
    } else {
        Seq::empty()
    };
    crtc + encoder + connector + fbs
}

/// Answers `DRM_IOCTL_MODE_GETENCODER` on the simple path: id 0 or 1 name
/// the encoder, a TMDS encoder driving CRTC 1.
pub fn handle_get_encoder(args: DrmModeGetEncoder) -> (r: Result<DrmModeGetEncoder, Errno>)
    ensures
        r == (if args.encoder_id != 1 && args.encoder_id != 0 {
            Err(Errno::ENOENT)
        } else {
            Ok(DrmModeGetEncoder { encoder_id: 1, encoder_type: 3, crtc_id: 1, possible_crtcs: 1, possible_clones: 0 })
        }),
{
    if args.encoder_id != ENCODER_ID && args.encoder_id != 0 {
        return Err(Errno::ENOENT);
    }
    Ok(
        DrmModeGetEncoder {
            encoder_id: ENCODER_ID,
            encoder_type: DRM_MODE_ENCODER_TMDS,
            crtc_id: CRTC_ID,
            possible_crtcs: 1,
            possible_clones: 0,
        },
    )
}

/// What `DRM_IOCTL_MODE_GETCONNECTOR` writes besides its reply: the
/// encoder id and the mode, each to its buffer when the client asked for
/// at least one.
pub struct ConnectorWrites {
    pub encoder_at: Option<usize>,
    pub mode_at: Option<usize>,
}

/// Answers `DRM_IOCTL_MODE_GETCONNECTOR` on the simple path: id 0 or 1 name
/// a connected HDMI-A connector of 2560 x 1600 mm with one encoder and the
/// one mode, no properties.
pub fn handle_get_connector(args: DrmModeGetConnector) -> (r: Result<(DrmModeGetConnector, ConnectorWrites), Errno>)
    ensures
        args.connector_id != 1 && args.connector_id != 0 ==> (r matches Err(e) && e == Errno::ENOENT),
        args.connector_id == 1 || args.connector_id == 0 ==> (r matches Ok((a, w)) && {
            &&& a.encoder_id == 1 && a.connector_type == 11 && a.connector_type_id == 1 && a.connection == 1
            &&& a.mm_width == 2560 && a.mm_height == 1600 && a.subpixel == 0
            &&& a.count_encoders == 1 && a.count_modes == 1 && a.count_props == 0
            &&& a.connector_id == args.connector_id && a.encoders_ptr == args.encoders_ptr && a.modes_ptr == args.modes_ptr
            &&& a.props_ptr == args.props_ptr && a.prop_values_ptr == args.prop_values_ptr && a.pad == args.pad
            &&& w.encoder_at == (if args.count_encoders > 0 && args.encoders_ptr != 0 {
                Some(args.encoders_ptr as usize)
            } else {
                None
            })
            &&& w.mode_at == (if args.count_modes > 0 && args.modes_ptr != 0 {
                Some(args.modes_ptr as usize)
            } else {
                None
            })
        }),
{
    if args.connector_id != CONNECTOR_ID && args.connector_id != 0 {
        return Err(Errno::ENOENT);
    }
    let encoder_at = if args.count_encoders > 0 && args.encoders_ptr != 0 {
        Some(args.encoders_ptr as usize)
    } else {
        None
    };
    let mode_at = if args.count_modes > 0 && args.modes_ptr != 0 {
        Some(args.modes_ptr as usize)
    } else {
        None
    };
    let mut reply = args;
    reply.encoder_id = ENCODER_ID;
    reply.connector_type = 11;
    reply.connector_type_id = 1;
    reply.connection = 1;
    reply.mm_width = 2560;
    reply.mm_height = 1600;
    reply.subpixel = 0;
    reply.count_encoders = 1;
    reply.count_modes = 1;
    reply.count_props = 0;
    Ok((reply, ConnectorWrites { encoder_at, mode_at }))
}

/// Answers `DRM_IOCTL_MODE_GETCRTC` on the simple path, with framebuffer
/// `current_fb` on screen: id 0 or 1 name the CRTC; while a framebuffer is
/// on screen its mode is `mode`, else there is none.
pub fn handle_get_crtc(args: DrmModeCrtc, current_fb: Option<u32>, mode: DrmModeModeInfo) -> (r: Result<DrmModeCrtc, Errno>)
    ensures
        args.crtc_id != 1 && args.crtc_id != 0 ==> (r matches Err(e) && e == Errno::ENOENT),
        args.crtc_id == 1 || args.crtc_id == 0 ==> (r matches Ok(a) && {
            &&& a.crtc_id == 1 && a.x == 0 && a.y == 0 && a.gamma_size == 0
            &&& a.set_connectors_ptr == args.set_connectors_ptr && a.count_connectors == args.count_connectors
            &&& match current_fb {
                Some(id) => a.fb_id == id && a.mode_valid == 1 && a.mode == mode,
                None => a.fb_id == 0 && a.mode_valid == 0 && DrmModeModeInfo::spec_zero(a.mode),
            }
        }),
{
    if args.crtc_id != CRTC_ID && args.crtc_id != 0 {
        return Err(Errno::ENOENT);
    }
    let mut reply = args;
    reply.crtc_id = CRTC_ID;
    reply.x = 0;
    reply.y = 0;
    match current_fb {
        Some(id) => {
            reply.fb_id = id;
            reply.mode_valid = 1;
            reply.mode = mode;
        },
        None => {
            reply.fb_id = 0;
            reply.mode_valid = 0;
            reply.mode = DrmModeModeInfo::default();
        },
    }
    reply.gamma_size = 0;
    Ok(reply)
}

/// Checks `DRM_IOCTL_MODE_SETCRTC` on the simple path before its
/// connectors are read: the CRTC must be 1, without offsets, the
/// framebuffer (if any) must exist, and connectors need their array.
pub fn set_crtc_check(args: &DrmModeCrtc, fb_exists: bool) -> (r: Result<(), Errno>)
    ensures
        r == (if args.crtc_id != 1 {
            Err(Errno::ENOENT)
        } else if args.x != 0 || args.y != 0 {
            Err(Errno::EINVAL)
        } else if args.fb_id != 0 && !fb_exists {
            Err(Errno::ENOENT)
        } else if args.count_connectors > 0 && args.set_connectors_ptr == 0 {
            Err(Errno::EINVAL)
        } else {
            Ok(())
        }),
{
    if args.crtc_id != CRTC_ID {
        return Err(Errno::ENOENT);
    }
    if args.x != 0 || args.y != 0 {
        return Err(Errno::EINVAL);
    }
    if args.fb_id != 0 && !fb_exists {
        return Err(Errno::ENOENT);
    }
    if args.count_connectors > 0 && args.set_connectors_ptr == 0 {
        return Err(Errno::EINVAL);
    }
    Ok(())
}

/// Checks one connector id that `DRM_IOCTL_MODE_SETCRTC` names.
pub fn set_crtc_connector_check(connector_id: u32) -> (r: Result<(), Errno>)
    ensures
        r == (if connector_id != 1 {
            Err(Errno::ENOENT)
        } else {
            Ok(())
        }),
{
    if connector_id != CONNECTOR_ID {
        return Err(Errno::ENOENT);
    }
    Ok(())
}

/// Decides `DRM_IOCTL_MODE_SETCRTC` on the simple path once its connectors
/// passed: a given mode must have the size of `current`; returns the
/// framebuffer to present, none for framebuffer 0.
pub fn set_crtc_target(args: &DrmModeCrtc, current: &DrmModeModeInfo) -> (r: Result<Option<u32>, Errno>)
    ensures
        r == (if args.mode_valid != 0 && (args.mode.hdisplay != current.hdisplay || args.mode.vdisplay != current.vdisplay) {
            Err(Errno::EINVAL)
        } else if args.fb_id == 0 {
            Ok(None)
        } else {
            Ok(Some(args.fb_id))
        }),
{
    if args.mode_valid != 0 {
        if args.mode.hdisplay != current.hdisplay || args.mode.vdisplay != current.vdisplay {
            return Err(Errno::EINVAL);
        }
    }
    if args.fb_id == 0 {
        Ok(None)
    } else {
        Ok(Some(args.fb_id))
    }
}

/// Decides `DRM_IOCTL_MODE_PAGE_FLIP` on the simple path: CRTC 1 and an
/// existing framebuffer, which it returns to present.
pub fn handle_page_flip(args: &DrmModePageFlip, fb_exists: bool) -> (r: Result<u32, Errno>)
    ensures
        r == (if args.crtc_id != 1 || !fb_exists {
            Err(Errno::ENOENT)
        } else {
            Ok(args.fb_id)
        }),
{
    if args.crtc_id != CRTC_ID {
        return Err(Errno::ENOENT);
    }
    if !fb_exists {
        return Err(Errno::ENOENT);
    }
    Ok(args.fb_id)
}

} // verus!

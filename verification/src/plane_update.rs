//! Atomic updates of a plane: decoding property writes, checking the
//! resulting configuration, and committing it.
use vstd::prelude::*;

use crate::crtc::DrmCrtc;
use crate::display::{DrmDisplayFormat, DrmDisplayMode};
use crate::effect::{add_unique, result_view, DrmAtomicEffect, EffectView};
use crate::error::DrmError;
use crate::framebuffer::DrmFramebuffer;
use crate::geometry::RectU32;
use crate::object_type::{ids_contain, DrmKmsObjectType, KmsObjectId, KmsObjectPropValue};
use crate::plane::{DrmPlane, DrmPlaneState};
use crate::property::{str_eq, DrmProperty};
use crate::store::{masked_ids, DrmKmsObjectStore};

verus! {

/// The changes an atomic update requests for a plane; `None` leaves a
/// field as it is.
#[derive(Debug, Clone, Copy, PartialEq, Eq, Structural)]
pub struct DrmPendingPlaneState {
    pub crtc_rect: Option<RectU32>,
    pub src_rect: Option<RectU32>,
    pub crtc_id: Option<Option<KmsObjectId>>,
    pub fb_id: Option<Option<KmsObjectId>>,
}

impl Default for DrmPendingPlaneState {
    fn default() -> (s: Self)
        ensures
            s == DrmPendingPlaneState::spec_none(),
    {
        DrmPendingPlaneState { crtc_rect: None, src_rect: None, crtc_id: None, fb_id: None }
    }
}

impl DrmPendingPlaneState {
    /// A request that changes nothing.
    pub open spec fn spec_none() -> DrmPendingPlaneState {
        DrmPendingPlaneState { crtc_rect: None, src_rect: None, crtc_id: None, fb_id: None }
    }

    pub fn new(
        crtc_rect: Option<RectU32>,
        src_rect: Option<RectU32>,
        crtc_id: Option<Option<KmsObjectId>>,
        fb_id: Option<Option<KmsObjectId>>,
    ) -> (s: Self)
        ensures
            s == (DrmPendingPlaneState { crtc_rect, src_rect, crtc_id, fb_id }),
    {
        DrmPendingPlaneState { crtc_rect, src_rect, crtc_id, fb_id }
    }
}

/// The value of `o`, or `d` without one.
pub open spec fn pick<T>(o: Option<T>, d: T) -> T {
    match o {
        Some(v) => v,
        None => d,
    }
}

/// The object id a property value names; 0 names no object.
pub open spec fn id_of_value(v: u64) -> Option<KmsObjectId> {
    if v == 0 {
        None
    } else {
        Some(v as u32)
    }
}

/// `r` with the coordinate named by `name` set to `v`; the four names are
/// those of the x, y, width and height coordinates.
pub open spec fn set_named_coord(
    r: RectU32,
    name: Seq<char>,
    v: u32,
    x: Seq<char>,
    y: Seq<char>,
    w: Seq<char>,
) -> RectU32 {
    if name == x {
        RectU32 { x: v, ..r }
    } else if name == y {
        RectU32 { y: v, ..r }
    } else if name == w {
        RectU32 { w: v, ..r }
    } else {
        RectU32 { h: v, ..r }
    }
}

/// The effect of writing `value` to the plane property `name`, for a plane
/// in state `current` with changes `pending` requested so far.
pub open spec fn plane_decode_spec(
    current: DrmPlaneState,
    name: Seq<char>,
    value: u64,
    pending: DrmPendingPlaneState,
) -> Result<DrmPendingPlaneState, DrmError> {
    if name == "CRTC_ID"@ {
        if value > u32::MAX {
            Err(DrmError::Invalid)
        } else {
            Ok(DrmPendingPlaneState { crtc_id: Some(id_of_value(value)), ..pending })
        }
    } else if name == "FB_ID"@ {
        if value > u32::MAX {
            Err(DrmError::Invalid)
        } else {
            Ok(DrmPendingPlaneState { fb_id: Some(id_of_value(value)), ..pending })
        }
    } else if name == "CRTC_W"@ || name == "CRTC_H"@ || name == "CRTC_X"@ || name == "CRTC_Y"@ {
        if value > u32::MAX {
            Err(DrmError::Invalid)
        } else {
            let rect = pick(pending.crtc_rect, current.crtc_rect_px);
            Ok(DrmPendingPlaneState {
                crtc_rect: Some(set_named_coord(rect, name, value as u32, "CRTC_X"@, "CRTC_Y"@, "CRTC_W"@)),
                ..pending
            })
        }
    } else if name == "SRC_W"@ || name == "SRC_H"@ || name == "SRC_X"@ || name == "SRC_Y"@ {
        if value > u32::MAX {
            Err(DrmError::Invalid)
        } else {
            let rect = pick(pending.src_rect, current.src_rect_px);
            Ok(DrmPendingPlaneState {
                src_rect: Some(set_named_coord(rect, name, value as u32, "SRC_X"@, "SRC_Y"@, "SRC_W"@)),
                ..pending
            })
        }
    } else {
        Err(DrmError::NotFound)
    }
}

/// The configuration a plane in state `old` has once `p` is applied.
pub open spec fn plane_final(old: DrmPlaneState, p: DrmPendingPlaneState) -> DrmPlaneState {
    DrmPlaneState {
        src_rect_px: pick(p.src_rect, old.src_rect_px),
        crtc_rect_px: pick(p.crtc_rect, old.crtc_rect_px),
        fb_id: pick(p.fb_id, old.fb_id),
        crtc_id: pick(p.crtc_id, old.crtc_id),
    }
}

/// `s` with the id in `o` added, if there is one.
pub open spec fn add_opt(s: Seq<KmsObjectId>, o: Option<KmsObjectId>) -> Seq<KmsObjectId> {
    match o {
        Some(x) => add_unique(s, x),
        None => s,
    }
}

/// Whether the update moves the plane to another CRTC.
pub open spec fn plane_crtc_changed(old: DrmPlaneState, p: DrmPendingPlaneState) -> bool {
    p.crtc_id is Some && old.crtc_id != plane_final(old, p).crtc_id
}

/// Whether the update changes what the plane shows without moving it.
pub open spec fn plane_content_changed(old: DrmPlaneState, p: DrmPendingPlaneState) -> bool {
    let f = plane_final(old, p);
    ||| (p.fb_id is Some && old.fb_id != f.fb_id)
    ||| (p.src_rect is Some && old.src_rect_px != f.src_rect_px)
    ||| (p.crtc_rect is Some && old.crtc_rect_px != f.crtc_rect_px)
}

/// The CRTCs a plane update touches: the old and new CRTC when it moves,
/// otherwise its CRTC when what it shows changes.
pub open spec fn plane_affected(old: DrmPlaneState, p: DrmPendingPlaneState) -> Seq<KmsObjectId> {
    let f = plane_final(old, p);
    if plane_crtc_changed(old, p) {
        add_opt(add_opt(Seq::empty(), old.crtc_id), f.crtc_id)
    } else if plane_content_changed(old, p) {
        add_opt(Seq::empty(), f.crtc_id)
    } else {
        Seq::empty()
    }
}

/// The CRTCs that owe an event after a plane update: its new CRTC, when
/// anything changed.
pub open spec fn plane_events(old: DrmPlaneState, p: DrmPendingPlaneState) -> Seq<KmsObjectId> {
    if plane_crtc_changed(old, p) || plane_content_changed(old, p) {
        add_opt(Seq::empty(), plane_final(old, p).crtc_id)
    } else {
        Seq::empty()
    }
}

/// Whether a plane showing `src` (16.16 framebuffer coordinates) of a
/// framebuffer of `fb_w` x `fb_h` pixels at `crtc` (CRTC pixels) fits:
/// no edge overflows, nothing is empty, both rectangles lie inside their
/// surface, and the source is not scaled. The framebuffer size in 16.16
/// coordinates is truncated to 32 bits.
pub open spec fn plane_geometry_ok(src: RectU32, crtc: RectU32, fb_w: u32, fb_h: u32, mode: DrmDisplayMode) -> bool {
    &&& src.x + src.w <= u32::MAX
    &&& src.y + src.h <= u32::MAX
    &&& crtc.x + crtc.w <= u32::MAX
    &&& crtc.y + crtc.h <= u32::MAX
    &&& src.w != 0 && src.h != 0 && crtc.w != 0 && crtc.h != 0
    &&& src.x + src.w <= (fb_w << 16u32)
    &&& src.y + src.h <= (fb_h << 16u32)
    &&& crtc.x + crtc.w <= mode.hdisplay
    &&& crtc.y + crtc.h <= mode.vdisplay
    &&& src.w / 65536 == crtc.w
    &&& src.h / 65536 == crtc.h
}

/// The error a plane's final configuration `f` has, if any: a CRTC without
/// a framebuffer or the reverse, a missing CRTC or framebuffer, a CRTC the
/// plane cannot feed, a format it cannot scan out, no mode, or a geometry
/// that does not fit.
pub open spec fn plane_check_error(
    objects: DrmKmsObjectStore,
    possible_crtcs: u32,
    formats: Seq<DrmDisplayFormat>,
    f: DrmPlaneState,
    display_mode: Option<DrmDisplayMode>,
) -> Option<DrmError> {
    match (f.crtc_id, f.fb_id) {
        (None, None) => None,
        (Some(c), Some(fb_id)) => {
            if objects.spec_get::<DrmCrtc>(c) is None {
                Some(DrmError::NotFound)
            } else if !masked_ids(objects.spec_ids(DrmKmsObjectType::Crtc), Some(possible_crtcs)).contains(c) {
                Some(DrmError::Invalid)
            } else if objects.spec_get::<DrmFramebuffer>(fb_id) is None {
                Some(DrmError::NotFound)
            } else {
                let fb = objects.spec_get::<DrmFramebuffer>(fb_id).unwrap();
                if !formats.contains(fb.spec_pixel_format()) {
                    Some(DrmError::Invalid)
                } else if display_mode is None {
                    Some(DrmError::Invalid)
                } else if !plane_geometry_ok(
                    f.src_rect_px,
                    f.crtc_rect_px,
                    fb.spec_width(),
                    fb.spec_height(),
                    display_mode.unwrap(),
                ) {
                    Some(DrmError::Invalid)
                } else {
                    None
                }
            }
        },
        _ => Some(DrmError::Invalid),
    }
}

/// The outcome of checking a plane update: the error of the final
/// configuration, or the update's effect.
pub open spec fn plane_check_spec(
    objects: DrmKmsObjectStore,
    plane: DrmPlane,
    p: DrmPendingPlaneState,
    display_mode: Option<DrmDisplayMode>,
) -> Result<EffectView, DrmError> {
    let old = plane.spec_state();
    match plane_check_error(
        objects,
        plane.spec_possible_crtcs(),
        plane.spec_format_types(),
        plane_final(old, p),
        display_mode,
    ) {
        Some(e) => Err(e),
        None => Ok((plane_crtc_changed(old, p), plane_affected(old, p), plane_events(old, p))),
    }
}

fn checked_geometry(src: RectU32, crtc: RectU32, fb_w: u32, fb_h: u32, mode: &DrmDisplayMode) -> (ok: bool)
    ensures
        ok == plane_geometry_ok(src, crtc, fb_w, fb_h, *mode),
{
    let src_x2 = match src.x().checked_add(src.width()) {
        Some(v) => v,
        None => {
            return false;
        },
    };
    let src_y2 = match src.y().checked_add(src.height()) {
        Some(v) => v,
        None => {
            return false;
        },
    };
    let fb_width = fb_w.wrapping_shl(16);
    let fb_height = fb_h.wrapping_shl(16);
    let crtc_x2 = match crtc.x().checked_add(crtc.width()) {
        Some(v) => v,
        None => {
            return false;
        },
    };
    let crtc_y2 = match crtc.y().checked_add(crtc.height()) {
        Some(v) => v,
        None => {
            return false;
        },
    };
    let sw = src.width();
    let sh = src.height();
    let src_width = sw >> 16;
    let src_height = sh >> 16;
    assert(sw >> 16 == sw / 65536) by (bit_vector);
    assert(sh >> 16 == sh / 65536) by (bit_vector);
    !(src.width() == 0 || src.height() == 0 || crtc.width() == 0 || crtc.height() == 0 || fb_width < src_x2
        || fb_height < src_y2 || (mode.hdisplay() as u32) < crtc_x2 || (mode.vdisplay() as u32) < crtc_y2
        || src_width != crtc.width() || src_height != crtc.height())
}

/// The configuration `state` becomes with the requested changes applied.
fn apply_pending(state: DrmPlaneState, pending_state: &DrmPendingPlaneState) -> (s: DrmPlaneState)
    ensures
        s == plane_final(state, *pending_state),
{
    let mut state = state;
    if let Some(src_rect) = pending_state.src_rect {
        state.set_src_rect(src_rect);
    }
    if let Some(crtc_rect) = pending_state.crtc_rect {
        state.set_crtc_rect(crtc_rect);
    }
    if let Some(crtc_id) = pending_state.crtc_id {
        state.set_crtc_id(crtc_id);
    }
    if let Some(fb_id) = pending_state.fb_id {
        state.set_fb_id(fb_id);
    }
    state
}

impl DrmPlane {
    /// Commits the requested changes into the plane's configuration.
    pub fn commit_pending_state(&mut self, pending_state: &DrmPendingPlaneState) -> (r: Result<(), DrmError>)
        ensures
            r is Ok,
            *final(self) == old(self).spec_with_state(plane_final(old(self).spec_state(), *pending_state)),
    {
        let state = apply_pending(*self.state(), pending_state);
        self.set_state(state);
        Ok(())
    }

    /// Applies the write of `prop_value` to `property` to the requested
    /// changes; on failure the requested changes stay as they were.
    pub fn decode_property(
        &self,
        _objects: &DrmKmsObjectStore,
        property: &DrmProperty,
        prop_value: KmsObjectPropValue,
        pending_state: &mut DrmPendingPlaneState,
    ) -> (r: Result<(), DrmError>)
        ensures
            match r {
                Ok(()) => plane_decode_spec(self.spec_state(), property.spec_name()@, prop_value, *old(pending_state))
                    == Ok::<DrmPendingPlaneState, DrmError>(*final(pending_state)),
                Err(e) => plane_decode_spec(self.spec_state(), property.spec_name()@, prop_value, *old(pending_state))
                    == Err::<DrmPendingPlaneState, DrmError>(e) && *final(pending_state) == *old(pending_state),
            },
    {
        let name = property.name();
        if str_eq(name, "CRTC_ID") {
            if prop_value > 0xffff_ffffu64 {
                return Err(DrmError::Invalid);
            }
            let id = prop_value as u32;
            pending_state.crtc_id = Some(if id != 0 { Some(id) } else { None });
        } else if str_eq(name, "FB_ID") {
            if prop_value > 0xffff_ffffu64 {
                return Err(DrmError::Invalid);
            }
            let id = prop_value as u32;
            pending_state.fb_id = Some(if id != 0 { Some(id) } else { None });
        } else if str_eq(name, "CRTC_W") || str_eq(name, "CRTC_H") || str_eq(name, "CRTC_X") || str_eq(name, "CRTC_Y") {
            if prop_value > 0xffff_ffffu64 {
                return Err(DrmError::Invalid);
            }
            let value = prop_value as u32;
            let mut rect = match pending_state.crtc_rect {
                Some(r) => r,
                None => self.snapshot().crtc_rect(),
            };
            if str_eq(name, "CRTC_X") {
                rect.set_x(value);
            } else if str_eq(name, "CRTC_Y") {
                rect.set_y(value);
            } else if str_eq(name, "CRTC_W") {
                rect.set_width(value);
            } else {
                rect.set_height(value);
            }
            pending_state.crtc_rect = Some(rect);
        } else if str_eq(name, "SRC_W") || str_eq(name, "SRC_H") || str_eq(name, "SRC_X") || str_eq(name, "SRC_Y") {
            if prop_value > 0xffff_ffffu64 {
                return Err(DrmError::Invalid);
            }
            let value = prop_value as u32;
            let mut rect = match pending_state.src_rect {
                Some(r) => r,
                None => self.snapshot().src_rect(),
            };
            if str_eq(name, "SRC_X") {
                rect.set_x(value);
            } else if str_eq(name, "SRC_Y") {
                rect.set_y(value);
            } else if str_eq(name, "SRC_W") {
                rect.set_width(value);
            } else {
                rect.set_height(value);
            }
            pending_state.src_rect = Some(rect);
        } else {
            return Err(DrmError::NotFound);
        }
        Ok(())
    }

    /// Checks the configuration the plane would have with `pending_state`
    /// applied, where `display_mode` is the mode its CRTC would have, and
    /// returns the update's effect.
    pub fn check_pending_state(
        &self,
        objects: &DrmKmsObjectStore,
        pending_state: &DrmPendingPlaneState,
        display_mode: Option<DrmDisplayMode>,
    ) -> (r: Result<DrmAtomicEffect, DrmError>)
        requires
            objects.masks_fit(),
        ensures
            result_view(r) == plane_check_spec(*objects, *self, *pending_state, display_mode),
    {
        let mut effect = DrmAtomicEffect::default();
        let snapshot = self.snapshot();
        let old_crtc_id = snapshot.crtc_id();
        let old_fb_id = snapshot.fb_id();
        let old_src_rect = snapshot.src_rect();
        let old_crtc_rect = snapshot.crtc_rect();

        let final_crtc_id = match pending_state.crtc_id {
            Some(v) => v,
            None => old_crtc_id,
        };
        let final_fb_id = match pending_state.fb_id {
            Some(v) => v,
            None => old_fb_id,
        };
        let final_src_rect = match pending_state.src_rect {
            Some(v) => v,
            None => old_src_rect,
        };
        let final_crtc_rect = match pending_state.crtc_rect {
            Some(v) => v,
            None => old_crtc_rect,
        };

        let crtc_changed = pending_state.crtc_id.is_some() && old_crtc_id != final_crtc_id;
        let fb_changed = pending_state.fb_id.is_some() && old_fb_id != final_fb_id;
        let src_changed = pending_state.src_rect.is_some() && old_src_rect != final_src_rect;
        let crtc_rect_changed = pending_state.crtc_rect.is_some() && old_crtc_rect != final_crtc_rect;

        if crtc_changed {
            if let Some(old_crtc_id) = old_crtc_id {
                effect.add_affected_crtc(old_crtc_id);
            }
            if let Some(final_crtc_id) = final_crtc_id {
                effect.add_affected_crtc(final_crtc_id);
            }
            effect.set_request_modeset();
        } else if fb_changed || src_changed || crtc_rect_changed {
            if let Some(final_crtc_id) = final_crtc_id {
                effect.add_affected_crtc(final_crtc_id);
            }
        }

        if crtc_changed || fb_changed || src_changed || crtc_rect_changed {
            if let Some(final_crtc_id) = final_crtc_id {
                effect.add_event_crtc(final_crtc_id);
            }
        }

        match (final_crtc_id, final_fb_id) {
            (None, None) => Ok(effect),
            (Some(crtc_id), Some(fb_id)) => {
                if objects.get_object::<DrmCrtc>(crtc_id).is_none() {
                    return Err(DrmError::NotFound);
                }
                let possible = objects.collect_object_ids(DrmKmsObjectType::Crtc, Some(self.possible_crtcs()));
                if !ids_contain(possible.as_slice(), crtc_id) {
                    return Err(DrmError::Invalid);
                }
                let fb = match objects.get_object::<DrmFramebuffer>(fb_id) {
                    Some(fb) => fb,
                    None => {
                        return Err(DrmError::NotFound);
                    },
                };
                if !self.supports_format(fb.pixel_format()) {
                    return Err(DrmError::Invalid);
                }
                let display_mode = match display_mode {
                    Some(m) => m,
                    None => {
                        return Err(DrmError::Invalid);
                    },
                };
                if !checked_geometry(final_src_rect, final_crtc_rect, fb.width(), fb.height(), &display_mode) {
                    return Err(DrmError::Invalid);
                }
                Ok(effect)
            },
            _ => Err(DrmError::Invalid),
        }
    }
}

impl DrmKmsObjectStore {
    /// Commits the requested changes into the plane under `plane_id`.
    pub fn commit_plane_state(&mut self, plane_id: KmsObjectId, pending_state: &DrmPendingPlaneState) -> (r: Result<
        (),
        DrmError,
    >)
        requires
            old(self).wf(),
        ensures
            final(self).wf(),
            match r {
                Ok(()) => {
                    let p = old(self).spec_get::<DrmPlane>(plane_id).unwrap();
                    &&& old(self).spec_get::<DrmPlane>(plane_id) is Some
                    &&& old(self).replaced(
                        final(self),
                        plane_id,
                        crate::store::DrmKmsObject::Plane(p.spec_with_state(plane_final(p.spec_state(), *pending_state))),
                    )
                },
                Err(e) => e == DrmError::NotFound && old(self).spec_get::<DrmPlane>(plane_id) is None && *final(self)
                    == *old(self),
            },
    {
        let state = match self.get_object::<DrmPlane>(plane_id) {
            Some(plane) => apply_pending(*plane.state(), pending_state),
            None => {
                return Err(DrmError::NotFound);
            },
        };
        self.set_plane_state(plane_id, state);
        Ok(())
    }
}

/// Decoding a plane property write changes exactly the field the
/// property names. `CRTC_X`, `CRTC_Y`, `CRTC_W` and `CRTC_H` set the x, y,
/// width and height of the requested CRTC rectangle (starting from the
/// one already requested, else the plane's current one), and `SRC_X` to
/// `SRC_H` those of the source rectangle; `CRTC_ID` and `FB_ID` name the
/// CRTC and framebuffer, 0 naming none. Values past 32 bits are invalid.
pub proof fn law_plane_write_sets_named_field(cur: DrmPlaneState, p: DrmPendingPlaneState, v: u64)
    ensures
        ({
            let c = pick(p.crtc_rect, cur.crtc_rect_px);
            let s = pick(p.src_rect, cur.src_rect_px);
            let w = v as u32;
            v <= u32::MAX ==> {
                &&& plane_decode_spec(cur, "CRTC_X"@, v, p) == Ok::<DrmPendingPlaneState, DrmError>(DrmPendingPlaneState { crtc_rect: Some(RectU32 { x: w, ..c }), ..p })
                &&& plane_decode_spec(cur, "CRTC_Y"@, v, p) == Ok::<DrmPendingPlaneState, DrmError>(DrmPendingPlaneState { crtc_rect: Some(RectU32 { y: w, ..c }), ..p })
                &&& plane_decode_spec(cur, "CRTC_W"@, v, p) == Ok::<DrmPendingPlaneState, DrmError>(DrmPendingPlaneState { crtc_rect: Some(RectU32 { w: w, ..c }), ..p })
                &&& plane_decode_spec(cur, "CRTC_H"@, v, p) == Ok::<DrmPendingPlaneState, DrmError>(DrmPendingPlaneState { crtc_rect: Some(RectU32 { h: w, ..c }), ..p })
                &&& plane_decode_spec(cur, "SRC_X"@, v, p) == Ok::<DrmPendingPlaneState, DrmError>(DrmPendingPlaneState { src_rect: Some(RectU32 { x: w, ..s }), ..p })
                &&& plane_decode_spec(cur, "SRC_Y"@, v, p) == Ok::<DrmPendingPlaneState, DrmError>(DrmPendingPlaneState { src_rect: Some(RectU32 { y: w, ..s }), ..p })
                &&& plane_decode_spec(cur, "SRC_W"@, v, p) == Ok::<DrmPendingPlaneState, DrmError>(DrmPendingPlaneState { src_rect: Some(RectU32 { w: w, ..s }), ..p })
                &&& plane_decode_spec(cur, "SRC_H"@, v, p) == Ok::<DrmPendingPlaneState, DrmError>(DrmPendingPlaneState { src_rect: Some(RectU32 { h: w, ..s }), ..p })
                &&& plane_decode_spec(cur, "CRTC_ID"@, v, p) == Ok::<DrmPendingPlaneState, DrmError>(DrmPendingPlaneState {
                    crtc_id: Some(if v == 0 { None } else { Some(w) }),
                    ..p
                })
                &&& plane_decode_spec(cur, "FB_ID"@, v, p) == Ok::<DrmPendingPlaneState, DrmError>(DrmPendingPlaneState {
                    fb_id: Some(if v == 0 { None } else { Some(w) }),
                    ..p
                })
            }
        }),
        v > u32::MAX ==> plane_decode_spec(cur, "CRTC_X"@, v, p) == Err::<DrmPendingPlaneState, DrmError>(DrmError::Invalid)
            && plane_decode_spec(cur, "SRC_X"@, v, p) == Err::<DrmPendingPlaneState, DrmError>(DrmError::Invalid)
            && plane_decode_spec(cur, "FB_ID"@, v, p) == Err::<DrmPendingPlaneState, DrmError>(DrmError::Invalid),
{
    reveal_strlit("CRTC_X");
    reveal_strlit("CRTC_Y");
    reveal_strlit("CRTC_W");
    reveal_strlit("CRTC_H");
    reveal_strlit("SRC_X");
    reveal_strlit("SRC_Y");
    reveal_strlit("SRC_W");
    reveal_strlit("SRC_H");
    reveal_strlit("CRTC_ID");
    reveal_strlit("FB_ID");
    assert("CRTC_X"@ != "CRTC_Y"@) by { assert("CRTC_X"@[5] != "CRTC_Y"@[5]); }
    assert("CRTC_X"@ != "SRC_X"@) by { assert("CRTC_X"@.len() != "SRC_X"@.len()); }
    assert("CRTC_X"@ != "SRC_Y"@) by { assert("CRTC_X"@.len() != "SRC_Y"@.len()); }
    assert("CRTC_X"@ != "SRC_W"@) by { assert("CRTC_X"@.len() != "SRC_W"@.len()); }
    assert("CRTC_X"@ != "SRC_H"@) by { assert("CRTC_X"@.len() != "SRC_H"@.len()); }
    assert("CRTC_X"@ != "FB_ID"@) by { assert("CRTC_X"@.len() != "FB_ID"@.len()); }
    assert("CRTC_Y"@ != "SRC_X"@) by { assert("CRTC_Y"@.len() != "SRC_X"@.len()); }
    assert("CRTC_Y"@ != "SRC_Y"@) by { assert("CRTC_Y"@.len() != "SRC_Y"@.len()); }
    assert("CRTC_Y"@ != "SRC_W"@) by { assert("CRTC_Y"@.len() != "SRC_W"@.len()); }
    assert("CRTC_Y"@ != "SRC_H"@) by { assert("CRTC_Y"@.len() != "SRC_H"@.len()); }
    assert("CRTC_Y"@ != "FB_ID"@) by { assert("CRTC_Y"@.len() != "FB_ID"@.len()); }
    assert("CRTC_W"@ != "CRTC_X"@) by { assert("CRTC_W"@[5] != "CRTC_X"@[5]); }
    assert("CRTC_W"@ != "CRTC_Y"@) by { assert("CRTC_W"@[5] != "CRTC_Y"@[5]); }
    assert("CRTC_W"@ != "SRC_X"@) by { assert("CRTC_W"@.len() != "SRC_X"@.len()); }
    assert("CRTC_W"@ != "SRC_Y"@) by { assert("CRTC_W"@.len() != "SRC_Y"@.len()); }
    assert("CRTC_W"@ != "SRC_W"@) by { assert("CRTC_W"@.len() != "SRC_W"@.len()); }
    assert("CRTC_W"@ != "SRC_H"@) by { assert("CRTC_W"@.len() != "SRC_H"@.len()); }
    assert("CRTC_W"@ != "FB_ID"@) by { assert("CRTC_W"@.len() != "FB_ID"@.len()); }
    assert("CRTC_H"@ != "CRTC_X"@) by { assert("CRTC_H"@[5] != "CRTC_X"@[5]); }
    assert("CRTC_H"@ != "CRTC_Y"@) by { assert("CRTC_H"@[5] != "CRTC_Y"@[5]); }
    assert("CRTC_H"@ != "CRTC_W"@) by { assert("CRTC_H"@[5] != "CRTC_W"@[5]); }
    assert("CRTC_H"@ != "SRC_X"@) by { assert("CRTC_H"@.len() != "SRC_X"@.len()); }
    assert("CRTC_H"@ != "SRC_Y"@) by { assert("CRTC_H"@.len() != "SRC_Y"@.len()); }
    assert("CRTC_H"@ != "SRC_W"@) by { assert("CRTC_H"@.len() != "SRC_W"@.len()); }
    assert("CRTC_H"@ != "SRC_H"@) by { assert("CRTC_H"@.len() != "SRC_H"@.len()); }
    assert("CRTC_H"@ != "CRTC_ID"@) by { assert("CRTC_H"@.len() != "CRTC_ID"@.len()); }
    assert("CRTC_H"@ != "FB_ID"@) by { assert("CRTC_H"@.len() != "FB_ID"@.len()); }
    assert("SRC_X"@ != "SRC_Y"@) by { assert("SRC_X"@[4] != "SRC_Y"@[4]); }
    assert("SRC_W"@ != "SRC_X"@) by { assert("SRC_W"@[4] != "SRC_X"@[4]); }
    assert("SRC_W"@ != "SRC_Y"@) by { assert("SRC_W"@[4] != "SRC_Y"@[4]); }
    assert("SRC_H"@ != "SRC_X"@) by { assert("SRC_H"@[4] != "SRC_X"@[4]); }
    assert("SRC_H"@ != "SRC_Y"@) by { assert("SRC_H"@[4] != "SRC_Y"@[4]); }
    assert("SRC_H"@ != "SRC_W"@) by { assert("SRC_H"@[4] != "SRC_W"@[4]); }
    assert("CRTC_ID"@ != "CRTC_X"@) by { assert("CRTC_ID"@.len() != "CRTC_X"@.len()); }
    assert("CRTC_ID"@ != "CRTC_Y"@) by { assert("CRTC_ID"@.len() != "CRTC_Y"@.len()); }
    assert("CRTC_ID"@ != "CRTC_W"@) by { assert("CRTC_ID"@.len() != "CRTC_W"@.len()); }
    assert("CRTC_ID"@ != "SRC_X"@) by { assert("CRTC_ID"@.len() != "SRC_X"@.len()); }
    assert("CRTC_ID"@ != "SRC_Y"@) by { assert("CRTC_ID"@.len() != "SRC_Y"@.len()); }
    assert("CRTC_ID"@ != "SRC_W"@) by { assert("CRTC_ID"@.len() != "SRC_W"@.len()); }
    assert("CRTC_ID"@ != "SRC_H"@) by { assert("CRTC_ID"@.len() != "SRC_H"@.len()); }
    assert("CRTC_ID"@ != "FB_ID"@) by { assert("CRTC_ID"@.len() != "FB_ID"@.len()); }
    assert("FB_ID"@ != "SRC_X"@) by { assert("FB_ID"@[0] != "SRC_X"@[0]); }
    assert("FB_ID"@ != "SRC_Y"@) by { assert("FB_ID"@[0] != "SRC_Y"@[0]); }
    assert("FB_ID"@ != "SRC_W"@) by { assert("FB_ID"@[0] != "SRC_W"@[0]); }
    assert("FB_ID"@ != "SRC_H"@) by { assert("FB_ID"@[0] != "SRC_H"@[0]); }
}

} // verus!

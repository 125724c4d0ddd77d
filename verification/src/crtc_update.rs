//! Atomic updates of a CRTC: decoding property writes, checking the
//! resulting configuration, and committing it.
use vstd::prelude::*;

use crate::blob::{mode_matches_bytes, DrmPropertyBlob, DRM_MODE_INFO_SIZE};
use crate::crtc::{DrmCrtc, DrmCrtcState};
use crate::display::DrmDisplayMode;
use crate::effect::{result_view, DrmAtomicEffect, EffectView};
use crate::error::DrmError;
use crate::object_type::{KmsObjectId, KmsObjectPropValue};
use crate::plane_update::{add_opt, pick};
use crate::property::{str_eq, DrmProperty};
use crate::store::{DrmKmsObject, DrmKmsObjectStore};

verus! {

/// The changes an atomic update requests for a CRTC; `None` leaves a field
/// as it is.
#[derive(Debug, Clone, Copy)]
pub struct DrmPendingCrtcState {
    pub active: Option<bool>,
    pub display_mode: Option<Option<DrmDisplayMode>>,
}

impl Default for DrmPendingCrtcState {
    fn default() -> (s: Self)
        ensures
            s.active is None,
            s.display_mode is None,
    {
        DrmPendingCrtcState { active: None, display_mode: None }
    }
}

impl DrmPendingCrtcState {
    pub fn new(active: Option<bool>, display_mode: Option<Option<DrmDisplayMode>>) -> (s: Self)
        ensures
            s == (DrmPendingCrtcState { active, display_mode }),
    {
        DrmPendingCrtcState { active, display_mode }
    }
}

/// The error of writing `value` to the CRTC property `name`, if any:
/// `ACTIVE` takes 0 or 1; `MODE_ID` takes 0 or the id of a blob holding a
/// userspace mode; other names are not CRTC properties.
pub open spec fn crtc_decode_error(objects: DrmKmsObjectStore, name: Seq<char>, value: u64) -> Option<DrmError> {
    if name == "ACTIVE"@ {
        if value > 1 {
            Some(DrmError::Invalid)
        } else {
            None
        }
    } else if name == "MODE_ID"@ {
        if value > u32::MAX {
            Some(DrmError::Invalid)
        } else if value == 0 {
            None
        } else if objects.spec_get::<DrmPropertyBlob>(value as u32) is None {
            Some(DrmError::NotFound)
        } else if objects.spec_get::<DrmPropertyBlob>(value as u32).unwrap().spec_data().len() != DRM_MODE_INFO_SIZE {
            Some(DrmError::Invalid)
        } else {
            None
        }
    } else {
        Some(DrmError::NotFound)
    }
}

/// Whether `new_p` is what a successful write of `value` to `name` makes of
/// the requested changes `old_p`.
pub open spec fn crtc_decode_result(
    objects: DrmKmsObjectStore,
    name: Seq<char>,
    value: u64,
    old_p: DrmPendingCrtcState,
    new_p: DrmPendingCrtcState,
) -> bool {
    if name == "ACTIVE"@ {
        new_p == (DrmPendingCrtcState { active: Some(value != 0), ..old_p })
    } else if value == 0 {
        new_p == (DrmPendingCrtcState { display_mode: Some(None), ..old_p })
    } else {
        &&& new_p.active == old_p.active
        &&& new_p.display_mode matches Some(Some(m))
        &&& mode_matches_bytes(
            new_p.display_mode.unwrap().unwrap(),
            objects.spec_get::<DrmPropertyBlob>(value as u32).unwrap().spec_data(),
        )
    }
}

/// The configuration a CRTC in state `old` has once `p` is applied; setting
/// `active` sets `enable` along with it.
pub open spec fn crtc_final(old: DrmCrtcState, p: DrmPendingCrtcState) -> DrmCrtcState {
    DrmCrtcState {
        display_mode: pick(p.display_mode, old.display_mode),
        enable: pick(p.active, old.enable),
        active: pick(p.active, old.active),
    }
}

/// Whether the update switches the CRTC on or off or changes its mode.
pub open spec fn crtc_changed(old: DrmCrtcState, p: DrmPendingCrtcState) -> bool {
    let f = crtc_final(old, p);
    (p.active is Some && old.active != f.active) || (p.display_mode is Some && old.display_mode != f.display_mode)
}

/// The outcome of checking an update of the CRTC `crtc_id`: an active CRTC
/// needs a mode. A change of `active` or of the mode touches the CRTC and
/// needs a modeset; it also owes an event when the CRTC ends up active.
pub open spec fn crtc_check_spec(crtc_id: KmsObjectId, crtc: DrmCrtc, p: DrmPendingCrtcState) -> Result<
    EffectView,
    DrmError,
> {
    let f = crtc_final(crtc.spec_state(), p);
    let changed = crtc_changed(crtc.spec_state(), p);
    if f.active && f.display_mode is None {
        Err(DrmError::Invalid)
    } else {
        Ok((
            changed,
            if changed { seq![crtc_id] } else { Seq::empty() },
            if changed && f.active { seq![crtc_id] } else { Seq::empty() },
        ))
    }
}

/// Whether two optional modes are the same.
fn modes_equal(a: &Option<DrmDisplayMode>, b: &Option<DrmDisplayMode>) -> (r: bool)
    ensures
        r == (*a == *b),
{
    match (a, b) {
        (None, None) => true,
        (Some(x), Some(y)) => *x == *y,
        _ => false,
    }
}

impl DrmCrtc {
    /// Applies the write of `prop_value` to `property` to the requested
    /// changes; on failure the requested changes stay as they were.
    pub fn decode_property(
        &self,
        objects: &DrmKmsObjectStore,
        property: &DrmProperty,
        prop_value: KmsObjectPropValue,
        pending_state: &mut DrmPendingCrtcState,
    ) -> (r: Result<(), DrmError>)
        ensures
            match r {
                Ok(()) => crtc_decode_error(*objects, property.spec_name()@, prop_value) is None
                    && crtc_decode_result(*objects, property.spec_name()@, prop_value, *old(pending_state), *final(pending_state)),
                Err(e) => crtc_decode_error(*objects, property.spec_name()@, prop_value) == Some(e)
                    && *final(pending_state) == *old(pending_state),
            },
    {
        let name = property.name();
        if str_eq(name, "ACTIVE") {
            if prop_value > 1 {
                return Err(DrmError::Invalid);
            }
            pending_state.active = Some(prop_value != 0);
        } else if str_eq(name, "MODE_ID") {
            if prop_value > 0xffff_ffffu64 {
                return Err(DrmError::Invalid);
            }
            let blob_id = prop_value as u32;
            if blob_id == 0 {
                pending_state.display_mode = Some(None);
            } else {
                let blob = match objects.get_object::<DrmPropertyBlob>(blob_id) {
                    Some(b) => b,
                    None => {
                        return Err(DrmError::NotFound);
                    },
                };
                let display_mode = DrmDisplayMode::from_blob(blob)?;
                pending_state.display_mode = Some(Some(display_mode));
            }
        } else {
            return Err(DrmError::NotFound);
        }
        Ok(())
    }

    /// Checks the configuration the CRTC `crtc_id` would have with
    /// `pending_state` applied: an active CRTC needs a mode. A change of
    /// `active` or of the mode touches the CRTC and needs a modeset; it also
    /// owes an event when the CRTC ends up active.
    pub fn check_pending_state(
        &self,
        crtc_id: KmsObjectId,
        _objects: &DrmKmsObjectStore,
        pending_state: &DrmPendingCrtcState,
    ) -> (r: Result<DrmAtomicEffect, DrmError>)
        ensures
            result_view(r) == crtc_check_spec(crtc_id, *self, *pending_state),
    {
        let mut effect = DrmAtomicEffect::default();
        let snapshot = self.snapshot();
        let old_active = snapshot.active();
        let old_display_mode = snapshot.display_mode();
        let final_active = match pending_state.active {
            Some(a) => a,
            None => old_active,
        };
        let final_display_mode = match pending_state.display_mode {
            Some(m) => m,
            None => old_display_mode,
        };
        let active_changed = pending_state.active.is_some() && old_active != final_active;
        let display_mode_changed = pending_state.display_mode.is_some() && !modes_equal(
            &old_display_mode,
            &final_display_mode,
        );
        if active_changed || display_mode_changed {
            effect.add_affected_crtc(crtc_id);
            effect.set_request_modeset();
        }
        if final_active && (active_changed || display_mode_changed) {
            effect.add_event_crtc(crtc_id);
        }
        proof {
            assert(add_opt(Seq::<KmsObjectId>::empty(), Some(crtc_id)) =~= seq![crtc_id]);
            assert(crate::effect::add_unique(Seq::<KmsObjectId>::empty(), crtc_id) =~= seq![crtc_id]);
        }
        if final_active && final_display_mode.is_none() {
            return Err(DrmError::Invalid);
        }
        Ok(effect)
    }

    /// Commits the requested changes into the CRTC's configuration.
    pub fn commit_pending_state(&mut self, pending_state: &DrmPendingCrtcState) -> (r: Result<(), DrmError>)
        ensures
            r is Ok,
            *final(self) == old(self).spec_with_state(crtc_final(old(self).spec_state(), *pending_state)),
    {
        let state = apply_pending(*self.state(), pending_state);
        self.set_state(state);
        Ok(())
    }
}

/// The configuration `state` becomes with the requested changes applied.
fn apply_pending(state: DrmCrtcState, pending_state: &DrmPendingCrtcState) -> (s: DrmCrtcState)
    ensures
        s == crtc_final(state, *pending_state),
{
    let mut state = state;
    if let Some(active) = pending_state.active {
        state.set_active(active);
        state.set_enable(active);
    }
    if let Some(display_mode) = pending_state.display_mode {
        state.set_display_mode(display_mode);
    }
    state
}

impl DrmKmsObjectStore {
    /// Commits the requested changes into the CRTC under `crtc_id`.
    pub fn commit_crtc_state(&mut self, crtc_id: KmsObjectId, pending_state: &DrmPendingCrtcState) -> (r: Result<
        (),
        DrmError,
    >)
        requires
            old(self).wf(),
        ensures
            final(self).wf(),
            match r {
                Ok(()) => {
                    let c = old(self).spec_get::<DrmCrtc>(crtc_id).unwrap();
                    &&& old(self).spec_get::<DrmCrtc>(crtc_id) is Some
                    &&& old(self).replaced(
                        final(self),
                        crtc_id,
                        DrmKmsObject::Crtc(c.spec_with_state(crtc_final(c.spec_state(), *pending_state))),
                    )
                },
                Err(e) => e == DrmError::NotFound && old(self).spec_get::<DrmCrtc>(crtc_id) is None && *final(self)
                    == *old(self),
            },
    {
        let state = match self.get_object::<DrmCrtc>(crtc_id) {
            Some(crtc) => apply_pending(*crtc.state(), pending_state),
            None => {
                return Err(DrmError::NotFound);
            },
        };
        self.set_crtc_state(crtc_id, state);
        Ok(())
    }
}

/// Decoding a CRTC property write: `ACTIVE` takes 0 or 1 and sets only
/// whether the CRTC is to be active; `MODE_ID` 0 asks for no mode and keeps
/// the requested activity; any other name is not a CRTC property.
pub proof fn law_crtc_write_sets_named_field(
    objects: DrmKmsObjectStore,
    v: u64,
    old_p: DrmPendingCrtcState,
    new_p: DrmPendingCrtcState,
)
    ensures
        v <= 1 ==> crtc_decode_error(objects, "ACTIVE"@, v) is None && (crtc_decode_result(objects, "ACTIVE"@, v, old_p, new_p)
            <==> new_p == DrmPendingCrtcState { active: Some(v == 1), display_mode: old_p.display_mode }),
        v > 1 ==> crtc_decode_error(objects, "ACTIVE"@, v) == Some(DrmError::Invalid),
        crtc_decode_error(objects, "MODE_ID"@, 0) is None && (crtc_decode_result(objects, "MODE_ID"@, 0, old_p, new_p)
            <==> new_p == DrmPendingCrtcState { active: old_p.active, display_mode: Some(None) }),
        crtc_decode_error(objects, "FB_ID"@, v) == Some(DrmError::NotFound),
{
    reveal_strlit("ACTIVE");
    reveal_strlit("MODE_ID");
    reveal_strlit("FB_ID");
    assert("ACTIVE"@ != "MODE_ID"@) by { assert("ACTIVE"@.len() != "MODE_ID"@.len()); }
    assert("FB_ID"@ != "MODE_ID"@) by { assert("FB_ID"@.len() != "MODE_ID"@.len()); }
    assert("FB_ID"@ != "ACTIVE"@) by { assert("FB_ID"@.len() != "ACTIVE"@.len()); }
}

} // verus!
